//! Inference backends, GPU vendors, and the reference table of cards with
//! their memory bandwidth and typical VRAM.
//!
//! Probing the machine (drivers, system tools, timing a memory sweep) is I/O
//! and happens in the application; recognising what it reports is decided
//! here.

use vstd::prelude::*;
use crate::text::{chars_of, eq_chars, contains_seq, contains_str, is_alnum, is_alnum_char, lower_seq, lower_vec, trim, trim_vec, string_of, matches_at};
use crate::serve::{find_char, lemma_find_char, find_in, split_once};
use crate::text::{texts, starts_with};

verus! {

#[derive(Debug, Clone, Copy, PartialEq, Eq, Structural)]
pub enum Backend {
    Cuda,
    Rocm,
    Sycl,
    Metal,
    CpuArm,
    CpuX86,
}

pub open spec fn backend_label(b: Backend) -> Seq<char> {
    match b {
        Backend::Cuda => "CUDA"@,
        Backend::Rocm => "ROCm"@,
        Backend::Sycl => "SYCL"@,
        Backend::Metal => "Metal"@,
        Backend::CpuArm => "CPU (ARM)"@,
        Backend::CpuX86 => "CPU (x86)"@,
    }
}

impl Backend {
    pub fn label(self) -> (r: &'static str)
        ensures
            r@ == backend_label(self),
    {
        match self {
            Backend::Cuda => "CUDA",
            Backend::Rocm => "ROCm",
            Backend::Sycl => "SYCL",
            Backend::Metal => "Metal",
            Backend::CpuArm => "CPU (ARM)",
            Backend::CpuX86 => "CPU (x86)",
        }
    }
}

#[derive(Debug, Clone, Copy, PartialEq, Eq, Structural)]
pub enum Vendor {
    Nvidia,
    Amd,
    Intel,
    Apple,
    Unknown,
}

pub open spec fn vendor_label(v: Vendor) -> Seq<char> {
    match v {
        Vendor::Nvidia => "NVIDIA"@,
        Vendor::Amd => "AMD"@,
        Vendor::Intel => "Intel"@,
        Vendor::Apple => "Apple"@,
        Vendor::Unknown => "Unknown"@,
    }
}

impl Vendor {
    pub fn label(self) -> (r: &'static str)
        ensures
            r@ == vendor_label(self),
    {
        match self {
            Vendor::Nvidia => "NVIDIA",
            Vendor::Amd => "AMD",
            Vendor::Intel => "Intel",
            Vendor::Apple => "Apple",
            Vendor::Unknown => "Unknown",
        }
    }
}

// ---------------------------------------------------------------------------
// Reference table
// ---------------------------------------------------------------------------

/// One card in the reference table. `fragment` is a matching key, compared
/// word by word against a normalised reported name (the first hit wins, so
/// more specific fragments come first); `display` is how the card is written.
/// Bandwidth is in GB/s and VRAM in GB, both whole numbers.
#[derive(Debug, Clone, Copy)]
pub struct GpuSpec {
    pub fragment: &'static str,
    pub display: &'static str,
    pub bandwidth_gb_s: u32,
    /// Typical VRAM for the card, used when no driver reports the real figure.
    pub vram_gb: u32,
}

pub open spec fn spec_view(g: GpuSpec) -> (Seq<char>, Seq<char>, nat, nat) {
    (g.fragment@, g.display@, g.bandwidth_gb_s as nat, g.vram_gb as nat)
}

pub open spec fn specs_view(v: Seq<GpuSpec>) -> Seq<(Seq<char>, Seq<char>, nat, nat)> {
    v.map_values(|g: GpuSpec| spec_view(g))
}

impl GpuSpec {
    pub fn display(&self) -> (r: &'static str)
        ensures
            r@ == self.display@,
    {
        self.display
    }

    pub fn fragment(&self) -> (r: &'static str)
        ensures
            r@ == self.fragment@,
    {
        self.fragment
    }
}

/// How the machine's GPUs are named where one name stands for them all (a
/// measurement's or a calibration's machine): the first GPU's name, with
/// the count after it when there are several; `none` without a GPU.
pub open spec fn primary_name(first: Option<Seq<char>>, count: nat) -> Seq<char> {
    match first {
        None => "none"@,
        Some(n) => if count == 1 { n } else { n + " x"@ + crate::text::dec(count) },
    }
}

pub fn primary_gpu_name(first: Option<&str>, count: usize) -> (r: String)
    ensures
        r@ == primary_name(
            match first {
                Some(n) => Some(n@),
                None => None,
            },
            count as nat,
        ),
{
    match first {
        None => crate::text::owned("none"),
        Some(n) => if count == 1 {
            crate::text::owned(n)
        } else {
            let mut r = crate::text::owned(n);
            r.append(" x");
            let c = crate::text::dec_string(count as u64);
            r.append(c.as_str());
            r
        },
    }
}

/// The reference table: matching fragment, display name, bandwidth (GB/s),
/// typical VRAM (GB). Specific fragments come before the shorter ones they
/// contain.
pub open spec fn gpu_specs() -> Seq<(Seq<char>, Seq<char>, nat, nat)> {
    seq![
        ("h200"@, "H200"@, 4800nat, 141nat),
        ("h100 pcie"@, "H100 PCIe"@, 2000nat, 80nat),
        ("h100"@, "H100"@, 3350nat, 80nat),
        ("a100 80"@, "A100 80GB"@, 2039nat, 80nat),
        ("a100"@, "A100"@, 1555nat, 40nat),
        ("l40s"@, "L40S"@, 864nat, 48nat),
        ("l40"@, "L40"@, 864nat, 48nat),
        ("l4"@, "L4"@, 300nat, 24nat),
        ("a40"@, "A40"@, 696nat, 48nat),
        ("a30"@, "A30"@, 933nat, 24nat),
        ("a10g"@, "A10G"@, 600nat, 24nat),
        ("a10"@, "A10"@, 600nat, 24nat),
        ("v100"@, "V100"@, 900nat, 32nat),
        ("t4"@, "T4"@, 320nat, 16nat),
        ("rtx 6000 ada"@, "RTX 6000 Ada"@, 960nat, 48nat),
        ("rtx a6000"@, "RTX A6000"@, 768nat, 48nat),
        ("rtx a5000"@, "RTX A5000"@, 768nat, 24nat),
        ("rtx a4000"@, "RTX A4000"@, 448nat, 16nat),
        ("5090"@, "RTX 5090"@, 1792nat, 32nat),
        ("5080"@, "RTX 5080"@, 960nat, 16nat),
        ("5070 ti"@, "RTX 5070 Ti"@, 896nat, 16nat),
        ("5070"@, "RTX 5070"@, 672nat, 12nat),
        ("5060 ti"@, "RTX 5060 Ti"@, 448nat, 16nat),
        ("5060"@, "RTX 5060"@, 448nat, 8nat),
        ("4090 laptop"@, "RTX 4090 Laptop"@, 576nat, 16nat),
        ("4080 laptop"@, "RTX 4080 Laptop"@, 432nat, 12nat),
        ("4070 laptop"@, "RTX 4070 Laptop"@, 256nat, 8nat),
        ("4060 laptop"@, "RTX 4060 Laptop"@, 272nat, 8nat),
        ("4050 laptop"@, "RTX 4050 Laptop"@, 192nat, 6nat),
        ("4090"@, "RTX 4090"@, 1008nat, 24nat),
        ("4080 super"@, "RTX 4080 Super"@, 736nat, 16nat),
        ("4080"@, "RTX 4080"@, 717nat, 16nat),
        ("4070 ti super"@, "RTX 4070 Ti Super"@, 672nat, 16nat),
        ("4070 ti"@, "RTX 4070 Ti"@, 504nat, 12nat),
        ("4070 super"@, "RTX 4070 Super"@, 504nat, 12nat),
        ("4070"@, "RTX 4070"@, 504nat, 12nat),
        ("4060 ti"@, "RTX 4060 Ti"@, 288nat, 16nat),
        ("4060"@, "RTX 4060"@, 272nat, 8nat),
        ("3090 ti"@, "RTX 3090 Ti"@, 1008nat, 24nat),
        ("3090"@, "RTX 3090"@, 936nat, 24nat),
        ("3080 ti"@, "RTX 3080 Ti"@, 912nat, 12nat),
        ("3080"@, "RTX 3080"@, 760nat, 10nat),
        ("3070 ti"@, "RTX 3070 Ti"@, 608nat, 8nat),
        ("3070"@, "RTX 3070"@, 448nat, 8nat),
        ("3060 ti"@, "RTX 3060 Ti"@, 448nat, 8nat),
        ("3060"@, "RTX 3060"@, 360nat, 12nat),
        ("3050"@, "RTX 3050"@, 224nat, 8nat),
        ("2080 ti"@, "RTX 2080 Ti"@, 616nat, 11nat),
        ("2080"@, "RTX 2080"@, 448nat, 8nat),
        ("2070"@, "RTX 2070"@, 448nat, 8nat),
        ("2060"@, "RTX 2060"@, 336nat, 6nat),
        ("1080 ti"@, "GTX 1080 Ti"@, 484nat, 11nat),
        ("1080"@, "GTX 1080"@, 320nat, 8nat),
        ("1070"@, "GTX 1070"@, 256nat, 8nat),
        ("1660"@, "GTX 1660"@, 192nat, 6nat),
        ("mi300x"@, "MI300X"@, 5300nat, 192nat),
        ("mi250x"@, "MI250X"@, 3276nat, 128nat),
        ("mi250"@, "MI250"@, 3276nat, 128nat),
        ("mi210"@, "MI210"@, 1638nat, 64nat),
        ("mi100"@, "MI100"@, 1229nat, 32nat),
        ("9070 xt"@, "RX 9070 XT"@, 645nat, 16nat),
        ("9070"@, "RX 9070"@, 645nat, 16nat),
        ("7900 xtx"@, "RX 7900 XTX"@, 960nat, 24nat),
        ("7900 xt"@, "RX 7900 XT"@, 800nat, 20nat),
        ("7800 xt"@, "RX 7800 XT"@, 624nat, 16nat),
        ("7700 xt"@, "RX 7700 XT"@, 432nat, 12nat),
        ("7600"@, "RX 7600"@, 288nat, 8nat),
        ("6950 xt"@, "RX 6950 XT"@, 576nat, 16nat),
        ("6900 xt"@, "RX 6900 XT"@, 512nat, 16nat),
        ("6800 xt"@, "RX 6800 XT"@, 512nat, 16nat),
        ("6700 xt"@, "RX 6700 XT"@, 384nat, 12nat),
        ("6600"@, "RX 6600"@, 224nat, 8nat),
        ("arc b580"@, "Arc B580"@, 456nat, 12nat),
        ("arc a770"@, "Arc A770"@, 560nat, 16nat),
        ("arc a750"@, "Arc A750"@, 512nat, 8nat),
        ("arc a380"@, "Arc A380"@, 186nat, 6nat),
        ("arc a580"@, "Arc A580"@, 512nat, 8nat),
        ("arc b570"@, "Arc B570"@, 380nat, 10nat),
        ("m4 max"@, "M4 Max"@, 546nat, 36nat),
        ("m4 pro"@, "M4 Pro"@, 273nat, 24nat),
        ("m4"@, "M4"@, 120nat, 16nat),
        ("m3 ultra"@, "M3 Ultra"@, 819nat, 96nat),
        ("m3 max"@, "M3 Max"@, 400nat, 36nat),
        ("m3 pro"@, "M3 Pro"@, 150nat, 18nat),
        ("m3"@, "M3"@, 100nat, 8nat),
        ("m2 ultra"@, "M2 Ultra"@, 800nat, 64nat),
        ("m2 max"@, "M2 Max"@, 400nat, 32nat),
        ("m2 pro"@, "M2 Pro"@, 200nat, 16nat),
        ("m2"@, "M2"@, 100nat, 8nat),
        ("m1 ultra"@, "M1 Ultra"@, 800nat, 64nat),
        ("m1 max"@, "M1 Max"@, 400nat, 32nat),
        ("m1 pro"@, "M1 Pro"@, 200nat, 16nat),
        ("m1"@, "M1"@, 68nat, 8nat),
    ]
}

/// The reference table.
pub fn gpu_table() -> (t: Vec<GpuSpec>)
    ensures
        specs_view(t@) == gpu_specs(),
{
    let mut t: Vec<GpuSpec> = Vec::new();
    t.push(GpuSpec { fragment: "h200", display: "H200", bandwidth_gb_s: 4800, vram_gb: 141 });
    t.push(GpuSpec { fragment: "h100 pcie", display: "H100 PCIe", bandwidth_gb_s: 2000, vram_gb: 80 });
    t.push(GpuSpec { fragment: "h100", display: "H100", bandwidth_gb_s: 3350, vram_gb: 80 });
    t.push(GpuSpec { fragment: "a100 80", display: "A100 80GB", bandwidth_gb_s: 2039, vram_gb: 80 });
    t.push(GpuSpec { fragment: "a100", display: "A100", bandwidth_gb_s: 1555, vram_gb: 40 });
    t.push(GpuSpec { fragment: "l40s", display: "L40S", bandwidth_gb_s: 864, vram_gb: 48 });
    t.push(GpuSpec { fragment: "l40", display: "L40", bandwidth_gb_s: 864, vram_gb: 48 });
    t.push(GpuSpec { fragment: "l4", display: "L4", bandwidth_gb_s: 300, vram_gb: 24 });
    t.push(GpuSpec { fragment: "a40", display: "A40", bandwidth_gb_s: 696, vram_gb: 48 });
    t.push(GpuSpec { fragment: "a30", display: "A30", bandwidth_gb_s: 933, vram_gb: 24 });
    t.push(GpuSpec { fragment: "a10g", display: "A10G", bandwidth_gb_s: 600, vram_gb: 24 });
    t.push(GpuSpec { fragment: "a10", display: "A10", bandwidth_gb_s: 600, vram_gb: 24 });
    t.push(GpuSpec { fragment: "v100", display: "V100", bandwidth_gb_s: 900, vram_gb: 32 });
    t.push(GpuSpec { fragment: "t4", display: "T4", bandwidth_gb_s: 320, vram_gb: 16 });
    t.push(GpuSpec { fragment: "rtx 6000 ada", display: "RTX 6000 Ada", bandwidth_gb_s: 960, vram_gb: 48 });
    t.push(GpuSpec { fragment: "rtx a6000", display: "RTX A6000", bandwidth_gb_s: 768, vram_gb: 48 });
    t.push(GpuSpec { fragment: "rtx a5000", display: "RTX A5000", bandwidth_gb_s: 768, vram_gb: 24 });
    t.push(GpuSpec { fragment: "rtx a4000", display: "RTX A4000", bandwidth_gb_s: 448, vram_gb: 16 });
    t.push(GpuSpec { fragment: "5090", display: "RTX 5090", bandwidth_gb_s: 1792, vram_gb: 32 });
    t.push(GpuSpec { fragment: "5080", display: "RTX 5080", bandwidth_gb_s: 960, vram_gb: 16 });
    t.push(GpuSpec { fragment: "5070 ti", display: "RTX 5070 Ti", bandwidth_gb_s: 896, vram_gb: 16 });
    t.push(GpuSpec { fragment: "5070", display: "RTX 5070", bandwidth_gb_s: 672, vram_gb: 12 });
    t.push(GpuSpec { fragment: "5060 ti", display: "RTX 5060 Ti", bandwidth_gb_s: 448, vram_gb: 16 });
    t.push(GpuSpec { fragment: "5060", display: "RTX 5060", bandwidth_gb_s: 448, vram_gb: 8 });
    t.push(GpuSpec { fragment: "4090 laptop", display: "RTX 4090 Laptop", bandwidth_gb_s: 576, vram_gb: 16 });
    t.push(GpuSpec { fragment: "4080 laptop", display: "RTX 4080 Laptop", bandwidth_gb_s: 432, vram_gb: 12 });
    t.push(GpuSpec { fragment: "4070 laptop", display: "RTX 4070 Laptop", bandwidth_gb_s: 256, vram_gb: 8 });
    t.push(GpuSpec { fragment: "4060 laptop", display: "RTX 4060 Laptop", bandwidth_gb_s: 272, vram_gb: 8 });
    t.push(GpuSpec { fragment: "4050 laptop", display: "RTX 4050 Laptop", bandwidth_gb_s: 192, vram_gb: 6 });
    t.push(GpuSpec { fragment: "4090", display: "RTX 4090", bandwidth_gb_s: 1008, vram_gb: 24 });
    t.push(GpuSpec { fragment: "4080 super", display: "RTX 4080 Super", bandwidth_gb_s: 736, vram_gb: 16 });
    t.push(GpuSpec { fragment: "4080", display: "RTX 4080", bandwidth_gb_s: 717, vram_gb: 16 });
    t.push(GpuSpec { fragment: "4070 ti super", display: "RTX 4070 Ti Super", bandwidth_gb_s: 672, vram_gb: 16 });
    t.push(GpuSpec { fragment: "4070 ti", display: "RTX 4070 Ti", bandwidth_gb_s: 504, vram_gb: 12 });
    t.push(GpuSpec { fragment: "4070 super", display: "RTX 4070 Super", bandwidth_gb_s: 504, vram_gb: 12 });
    t.push(GpuSpec { fragment: "4070", display: "RTX 4070", bandwidth_gb_s: 504, vram_gb: 12 });
    t.push(GpuSpec { fragment: "4060 ti", display: "RTX 4060 Ti", bandwidth_gb_s: 288, vram_gb: 16 });
    t.push(GpuSpec { fragment: "4060", display: "RTX 4060", bandwidth_gb_s: 272, vram_gb: 8 });
    t.push(GpuSpec { fragment: "3090 ti", display: "RTX 3090 Ti", bandwidth_gb_s: 1008, vram_gb: 24 });
    t.push(GpuSpec { fragment: "3090", display: "RTX 3090", bandwidth_gb_s: 936, vram_gb: 24 });
    t.push(GpuSpec { fragment: "3080 ti", display: "RTX 3080 Ti", bandwidth_gb_s: 912, vram_gb: 12 });
    t.push(GpuSpec { fragment: "3080", display: "RTX 3080", bandwidth_gb_s: 760, vram_gb: 10 });
    t.push(GpuSpec { fragment: "3070 ti", display: "RTX 3070 Ti", bandwidth_gb_s: 608, vram_gb: 8 });
    t.push(GpuSpec { fragment: "3070", display: "RTX 3070", bandwidth_gb_s: 448, vram_gb: 8 });
    t.push(GpuSpec { fragment: "3060 ti", display: "RTX 3060 Ti", bandwidth_gb_s: 448, vram_gb: 8 });
    t.push(GpuSpec { fragment: "3060", display: "RTX 3060", bandwidth_gb_s: 360, vram_gb: 12 });
    t.push(GpuSpec { fragment: "3050", display: "RTX 3050", bandwidth_gb_s: 224, vram_gb: 8 });
    t.push(GpuSpec { fragment: "2080 ti", display: "RTX 2080 Ti", bandwidth_gb_s: 616, vram_gb: 11 });
    t.push(GpuSpec { fragment: "2080", display: "RTX 2080", bandwidth_gb_s: 448, vram_gb: 8 });
    t.push(GpuSpec { fragment: "2070", display: "RTX 2070", bandwidth_gb_s: 448, vram_gb: 8 });
    t.push(GpuSpec { fragment: "2060", display: "RTX 2060", bandwidth_gb_s: 336, vram_gb: 6 });
    t.push(GpuSpec { fragment: "1080 ti", display: "GTX 1080 Ti", bandwidth_gb_s: 484, vram_gb: 11 });
    t.push(GpuSpec { fragment: "1080", display: "GTX 1080", bandwidth_gb_s: 320, vram_gb: 8 });
    t.push(GpuSpec { fragment: "1070", display: "GTX 1070", bandwidth_gb_s: 256, vram_gb: 8 });
    t.push(GpuSpec { fragment: "1660", display: "GTX 1660", bandwidth_gb_s: 192, vram_gb: 6 });
    t.push(GpuSpec { fragment: "mi300x", display: "MI300X", bandwidth_gb_s: 5300, vram_gb: 192 });
    t.push(GpuSpec { fragment: "mi250x", display: "MI250X", bandwidth_gb_s: 3276, vram_gb: 128 });
    t.push(GpuSpec { fragment: "mi250", display: "MI250", bandwidth_gb_s: 3276, vram_gb: 128 });
    t.push(GpuSpec { fragment: "mi210", display: "MI210", bandwidth_gb_s: 1638, vram_gb: 64 });
    t.push(GpuSpec { fragment: "mi100", display: "MI100", bandwidth_gb_s: 1229, vram_gb: 32 });
    t.push(GpuSpec { fragment: "9070 xt", display: "RX 9070 XT", bandwidth_gb_s: 645, vram_gb: 16 });
    t.push(GpuSpec { fragment: "9070", display: "RX 9070", bandwidth_gb_s: 645, vram_gb: 16 });
    t.push(GpuSpec { fragment: "7900 xtx", display: "RX 7900 XTX", bandwidth_gb_s: 960, vram_gb: 24 });
    t.push(GpuSpec { fragment: "7900 xt", display: "RX 7900 XT", bandwidth_gb_s: 800, vram_gb: 20 });
    t.push(GpuSpec { fragment: "7800 xt", display: "RX 7800 XT", bandwidth_gb_s: 624, vram_gb: 16 });
    t.push(GpuSpec { fragment: "7700 xt", display: "RX 7700 XT", bandwidth_gb_s: 432, vram_gb: 12 });
    t.push(GpuSpec { fragment: "7600", display: "RX 7600", bandwidth_gb_s: 288, vram_gb: 8 });
    t.push(GpuSpec { fragment: "6950 xt", display: "RX 6950 XT", bandwidth_gb_s: 576, vram_gb: 16 });
    t.push(GpuSpec { fragment: "6900 xt", display: "RX 6900 XT", bandwidth_gb_s: 512, vram_gb: 16 });
    t.push(GpuSpec { fragment: "6800 xt", display: "RX 6800 XT", bandwidth_gb_s: 512, vram_gb: 16 });
    t.push(GpuSpec { fragment: "6700 xt", display: "RX 6700 XT", bandwidth_gb_s: 384, vram_gb: 12 });
    t.push(GpuSpec { fragment: "6600", display: "RX 6600", bandwidth_gb_s: 224, vram_gb: 8 });
    t.push(GpuSpec { fragment: "arc b580", display: "Arc B580", bandwidth_gb_s: 456, vram_gb: 12 });
    t.push(GpuSpec { fragment: "arc a770", display: "Arc A770", bandwidth_gb_s: 560, vram_gb: 16 });
    t.push(GpuSpec { fragment: "arc a750", display: "Arc A750", bandwidth_gb_s: 512, vram_gb: 8 });
    t.push(GpuSpec { fragment: "arc a380", display: "Arc A380", bandwidth_gb_s: 186, vram_gb: 6 });
    t.push(GpuSpec { fragment: "arc a580", display: "Arc A580", bandwidth_gb_s: 512, vram_gb: 8 });
    t.push(GpuSpec { fragment: "arc b570", display: "Arc B570", bandwidth_gb_s: 380, vram_gb: 10 });
    t.push(GpuSpec { fragment: "m4 max", display: "M4 Max", bandwidth_gb_s: 546, vram_gb: 36 });
    t.push(GpuSpec { fragment: "m4 pro", display: "M4 Pro", bandwidth_gb_s: 273, vram_gb: 24 });
    t.push(GpuSpec { fragment: "m4", display: "M4", bandwidth_gb_s: 120, vram_gb: 16 });
    t.push(GpuSpec { fragment: "m3 ultra", display: "M3 Ultra", bandwidth_gb_s: 819, vram_gb: 96 });
    t.push(GpuSpec { fragment: "m3 max", display: "M3 Max", bandwidth_gb_s: 400, vram_gb: 36 });
    t.push(GpuSpec { fragment: "m3 pro", display: "M3 Pro", bandwidth_gb_s: 150, vram_gb: 18 });
    t.push(GpuSpec { fragment: "m3", display: "M3", bandwidth_gb_s: 100, vram_gb: 8 });
    t.push(GpuSpec { fragment: "m2 ultra", display: "M2 Ultra", bandwidth_gb_s: 800, vram_gb: 64 });
    t.push(GpuSpec { fragment: "m2 max", display: "M2 Max", bandwidth_gb_s: 400, vram_gb: 32 });
    t.push(GpuSpec { fragment: "m2 pro", display: "M2 Pro", bandwidth_gb_s: 200, vram_gb: 16 });
    t.push(GpuSpec { fragment: "m2", display: "M2", bandwidth_gb_s: 100, vram_gb: 8 });
    t.push(GpuSpec { fragment: "m1 ultra", display: "M1 Ultra", bandwidth_gb_s: 800, vram_gb: 64 });
    t.push(GpuSpec { fragment: "m1 max", display: "M1 Max", bandwidth_gb_s: 400, vram_gb: 32 });
    t.push(GpuSpec { fragment: "m1 pro", display: "M1 Pro", bandwidth_gb_s: 200, vram_gb: 16 });
    t.push(GpuSpec { fragment: "m1", display: "M1", bandwidth_gb_s: 68, vram_gb: 8 });
    assert(specs_view(t@) =~= gpu_specs());
    t
}


// ---------------------------------------------------------------------------
// Recognising a reported name
// ---------------------------------------------------------------------------

/// `str::replace` of every non-overlapping occurrence of `pat`, leftmost first.
pub open spec fn replace_all(s: Seq<char>, pat: Seq<char>, rep: Seq<char>) -> Seq<char>
    decreases s.len(),
{
    if s.len() == 0 {
        seq![]
    } else if pat.len() > 0 && pat.len() <= s.len() && s.take(pat.len() as int) == pat {
        rep + replace_all(s.skip(pat.len() as int), pat, rep)
    } else {
        seq![s[0]] + replace_all(s.drop_first(), pat, rep)
    }
}

/// ASCII letters and digits kept; every run of anything else becomes one space.
pub open spec fn collapse(s: Seq<char>) -> Seq<char>
    decreases s.len(),
{
    if s.len() == 0 {
        seq![]
    } else {
        let o = collapse(s.drop_last());
        let c = s.last();
        if is_alnum(c) {
            o.push(c)
        } else if o.len() > 0 && o.last() == ' ' {
            o
        } else {
            o.push(' ')
        }
    }
}

/// A reported GPU name in the form the table's fragments are written in:
/// lowercase, trademark marks dropped, punctuation and runs of whitespace
/// turned into single spaces, trimmed.
pub open spec fn normalized_gpu(s: Seq<char>) -> Seq<char> {
    let a = replace_all(lower_seq(s), "(r)"@, " "@);
    let b = replace_all(a, "(tm)"@, " "@);
    let c = crate::text::replace_chars(b, seq!['®', '™'], ' ');
    trim(collapse(c))
}

fn replace_vec_str(v: &[char], pat: &str, rep: &str) -> (r: Vec<char>)
    ensures
        r@ == replace_all(v@, pat@, rep@),
{
    let p = chars_of(pat);
    let rv = chars_of(rep);
    let mut out: Vec<char> = Vec::new();
    let mut i: usize = 0;
    assert(v@.skip(0) =~= v@);
    while i < v.len()
        invariant
            i <= v.len(),
            p@ == pat@,
            rv@ == rep@,
            out@ + replace_all(v@.skip(i as int), pat@, rep@) == replace_all(v@, pat@, rep@),
        decreases v.len() - i,
    {
        let ghost rest = v@.skip(i as int);
        if p.len() > 0 && p.len() <= v.len() - i && matches_at(v, p.as_slice(), i) {
            assert(rest.take(p.len() as int) =~= v@.subrange(i as int, i + p.len()));
            assert(rest.skip(p.len() as int) =~= v@.skip(i + p.len()));
            let ghost before = out@;
            let mut k: usize = 0;
            while k < rv.len()
                invariant
                    k <= rv.len(),
                    out@ == before + rv@.subrange(0, k as int),
                decreases rv.len() - k,
            {
                out.push(rv[k]);
                k = k + 1;
                assert(out@ =~= before + rv@.subrange(0, k as int));
            }
            assert(rv@.subrange(0, k as int) =~= rv@);
            assert(out@ + replace_all(v@.skip(i + p.len()), pat@, rep@) =~= before + replace_all(rest, pat@, rep@));
            i = i + p.len();
        } else {
            proof {
                if p.len() > 0 && p.len() <= v.len() - i {
                    assert(rest.take(p.len() as int) =~= v@.subrange(i as int, i + p.len()));
                }
                assert(rest.drop_first() =~= v@.skip(i + 1));
                assert(rest[0] == v@[i as int]);
            }
            let ghost before = out@;
            out.push(v[i]);
            assert(out@ + replace_all(v@.skip(i + 1), pat@, rep@) =~= before + replace_all(rest, pat@, rep@));
            i = i + 1;
        }
    }
    assert(v@.skip(i as int) =~= seq![]);
    assert(out@ + replace_all(v@.skip(i as int), pat@, rep@) =~= out@);
    out
}

fn collapse_vec(v: &[char]) -> (r: Vec<char>)
    ensures
        r@ == collapse(v@),
{
    let mut out: Vec<char> = Vec::new();
    let mut i: usize = 0;
    assert(v@.take(0) =~= seq![]);
    while i < v.len()
        invariant
            i <= v.len(),
            out@ == collapse(v@.take(i as int)),
        decreases v.len() - i,
    {
        assert(v@.take(i + 1).drop_last() =~= v@.take(i as int));
        assert(v@.take(i + 1).last() == v@[i as int]);
        let c = v[i];
        if is_alnum_char(c) {
            out.push(c);
        } else if out.len() > 0 && out[out.len() - 1] == ' ' {
        } else {
            out.push(' ');
        }
        i = i + 1;
    }
    assert(v@.take(i as int) =~= v@);
    out
}

/// Reduce a reported GPU name to the form the table fragments are written in.
pub fn normalize_gpu_name(name: &str) -> (r: String)
    ensures
        r@ == normalized_gpu(name@),
{
    let v = chars_of(name);
    let l = lower_vec(v.as_slice());
    let a = replace_vec_str(l.as_slice(), "(r)", " ");
    let b = replace_vec_str(a.as_slice(), "(tm)", " ");
    let marks = ['®', '™'];
    let c = crate::text::replace_vec(b.as_slice(), marks.as_slice(), ' ');
    assert(marks@ =~= seq!['®', '™']);
    let d = collapse_vec(c.as_slice());
    let t = trim_vec(d.as_slice());
    string_of(t.as_slice())
}

/// `str::split` on one character: every piece between separators, empty
/// pieces included.
pub open spec fn split_on(s: Seq<char>, c: char) -> Seq<Seq<char>>
    decreases s.len(),
{
    proof {
        lemma_find_char(s, c);
    }
    match find_char(s, c) {
        None => seq![s],
        Some(i) => seq![s.take(i as int)] + split_on(s.skip(i as int + 1), c),
    }
}

/// True when `fragment`'s words appear consecutively among `name`'s words.
pub open spec fn fragment_matches(name: Seq<char>, fragment: Seq<char>) -> bool {
    let words = split_on(name, ' ');
    let wanted = split_on(fragment, ' ');
    &&& wanted.len() > 0
    &&& wanted.len() <= words.len()
    &&& exists|i: int| 0 <= i <= words.len() - wanted.len() && #[trigger] words.subrange(i, i + wanted.len()) == wanted
}

pub open spec fn words_view(v: Seq<Vec<char>>) -> Seq<Seq<char>> {
    v.map_values(|x: Vec<char>| x@)
}

fn split_vec(v: &[char], c: char) -> (r: Vec<Vec<char>>)
    ensures
        words_view(r@) == split_on(v@, c),
{
    let mut out: Vec<Vec<char>> = Vec::new();
    let mut start: usize = 0;
    assert(v@.subrange(0, v.len() as int) =~= v@);
    assert(words_view(out@) =~= seq![]);
    loop
        invariant
            start <= v.len(),
            words_view(out@) + split_on(v@.subrange(start as int, v.len() as int), c) == split_on(v@, c),
        decreases v.len() - start,
    {
        let ghost sub = v@.subrange(start as int, v.len() as int);
        let ghost before = words_view(out@);
        match crate::serve::find_in(v, start, v.len(), c) {
            None => {
                let piece = vstd::slice::slice_to_vec(vstd::slice::slice_subrange(v, start, v.len()));
                out.push(piece);
                assert(words_view(out@) =~= before + seq![sub]);
                return out;
            },
            Some(i) => {
                assert(sub.take(i - start) =~= v@.subrange(start as int, i as int));
                assert(sub.skip(i - start + 1) =~= v@.subrange(i + 1, v.len() as int));
                let piece = vstd::slice::slice_to_vec(vstd::slice::slice_subrange(v, start, i));
                out.push(piece);
                assert(words_view(out@) =~= before + seq![v@.subrange(start as int, i as int)]);
                assert(words_view(out@) + split_on(v@.subrange(i + 1, v.len() as int), c) =~= before + split_on(sub, c));
                start = i + 1;
            },
        }
    }
}

/// True when `fragment`'s words appear consecutively in `name`, so that a
/// short fragment such as `m4` does not claim an `M40`.
pub fn matches_fragment(name: &str, fragment: &str) -> (r: bool)
    ensures
        r == fragment_matches(name@, fragment@),
{
    let words = split_vec(chars_of(name).as_slice(), ' ');
    let wanted = split_vec(chars_of(fragment).as_slice(), ' ');
    let ghost wv = words_view(words@);
    let ghost tv = words_view(wanted@);
    if wanted.len() == 0 || wanted.len() > words.len() {
        return false;
    }
    let k = wanted.len();
    let mut i: usize = 0;
    while i <= words.len() - k
        invariant
            k == wanted.len(),
            0 < k <= words.len(),
            wv == words_view(words@),
            tv == words_view(wanted@),
            wv.len() == words.len(),
            tv.len() == k,
            wv == split_on(name@, ' '),
            tv == split_on(fragment@, ' '),
            forall|a: int| 0 <= a < i ==> #[trigger] wv.subrange(a, a + k) != tv,
        decreases words.len() - i,
    {
        let mut j: usize = 0;
        let mut same = true;
        while j < k
            invariant
                j <= k,
                k == wanted.len(),
                i + k <= words.len(),
                wv == words_view(words@),
                tv == words_view(wanted@),
                same == (forall|b: int| 0 <= b < j ==> wv[i + b] == tv[b]),
            decreases k - j,
        {
            assert(wv[i + j] == words@[i + j as int]@);
            assert(tv[j as int] == wanted@[j as int]@);
            if !eq_chars(words[i + j].as_slice(), wanted[j].as_slice()) {
                same = false;
            }
            j = j + 1;
        }
        if same {
            assert(wv.subrange(i as int, i + k) =~= tv);
            return true;
        }
        proof {
            assert(wv.subrange(i as int, i + k) != tv) by {
                let b = choose|b: int| 0 <= b < k && wv[i + b] != tv[b];
                assert(wv.subrange(i as int, i + k)[b] == wv[i + b]);
            }
        }
        i = i + 1;
    }
    false
}

/// The first table entry at or after `i` whose fragment matches `norm`.
pub open spec fn lookup_from(norm: Seq<char>, i: nat) -> Option<(Seq<char>, Seq<char>, nat, nat)>
    decreases gpu_specs().len() - i,
{
    if i >= gpu_specs().len() {
        None
    } else if fragment_matches(norm, gpu_specs()[i as int].0) {
        Some(gpu_specs()[i as int])
    } else {
        lookup_from(norm, i + 1)
    }
}

/// The table entry a reported name is recognised as: the first whose
/// fragment matches the normalised name.
pub open spec fn gpu_for_name(name: Seq<char>) -> Option<(Seq<char>, Seq<char>, nat, nat)> {
    lookup_from(normalized_gpu(name), 0)
}

/// The reference card a reported GPU name is recognised as.
pub fn lookup_gpu(name: &str) -> (r: Option<GpuSpec>)
    ensures
        r is None ==> gpu_for_name(name@) is None,
        r matches Some(g) ==> gpu_for_name(name@) == Some(spec_view(g)),
{
    let normalized = normalize_gpu_name(name);
    let table = gpu_table();
    let mut i: usize = 0;
    while i < table.len()
        invariant
            i <= table.len(),
            specs_view(table@) == gpu_specs(),
            gpu_for_name(name@) == lookup_from(normalized@, i as nat),
        decreases table.len() - i,
    {
        assert(specs_view(table@)[i as int] == spec_view(table@[i as int]));
        if matches_fragment(normalized.as_str(), table[i].fragment) {
            return Some(table[i]);
        }
        i = i + 1;
    }
    None
}


/// Where a card with bandwidth `k` goes in a list kept in bandwidth order:
/// after every card no faster than it.
pub open spec fn bandwidth_slot(r: Seq<(Seq<char>, Seq<char>, nat, nat)>, k: nat) -> nat
    decreases r.len(),
{
    if r.len() == 0 {
        0
    } else if r.last().2 <= k {
        r.len()
    } else {
        bandwidth_slot(r.drop_last(), k)
    }
}

/// The cards of `t` that reach both bars, slowest first; cards of equal
/// bandwidth keep their table order.
pub open spec fn reaching(t: Seq<(Seq<char>, Seq<char>, nat, nat)>, bw: nat, vram: nat) -> Seq<(Seq<char>, Seq<char>, nat, nat)>
    decreases t.len(),
{
    if t.len() == 0 {
        seq![]
    } else {
        let r = reaching(t.drop_last(), bw, vram);
        let e = t.last();
        if e.2 >= bw && e.3 >= vram {
            r.insert(bandwidth_slot(r, e.2) as int, e)
        } else {
            r
        }
    }
}

/// Cards from the reference table with at least `min_bandwidth_gb_s` of
/// bandwidth and `min_vram_gb` of VRAM, slowest first: the first is the least
/// card that does the job.
pub fn gpus_reaching(min_bandwidth_gb_s: u32, min_vram_gb: u32) -> (r: Vec<GpuSpec>)
    ensures
        specs_view(r@) == reaching(gpu_specs(), min_bandwidth_gb_s as nat, min_vram_gb as nat),
        forall|i: int| 0 <= i < r.len() ==> (#[trigger] r@[i]).bandwidth_gb_s >= min_bandwidth_gb_s && r@[i].vram_gb >= min_vram_gb,
        forall|i: int, j: int| 0 <= i < j < r.len() ==> (#[trigger] r@[i]).bandwidth_gb_s <= (#[trigger] r@[j]).bandwidth_gb_s,
{
    let table = gpu_table();
    let ghost t = specs_view(table@);
    let mut out: Vec<GpuSpec> = Vec::new();
    let mut i: usize = 0;
    assert(specs_view(out@) =~= seq![]);
    assert(t.take(0) =~= seq![]);
    while i < table.len()
        invariant
            i <= table.len(),
            t == specs_view(table@),
            t == gpu_specs(),
            specs_view(out@) == reaching(t.take(i as int), min_bandwidth_gb_s as nat, min_vram_gb as nat),
            forall|a: int| 0 <= a < out.len() ==> (#[trigger] out@[a]).bandwidth_gb_s >= min_bandwidth_gb_s && out@[a].vram_gb >= min_vram_gb,
            forall|a: int, b: int| 0 <= a < b < out.len() ==> (#[trigger] out@[a]).bandwidth_gb_s <= (#[trigger] out@[b]).bandwidth_gb_s,
        decreases table.len() - i,
    {
        let g = table[i];
        proof {
            assert(t.take(i + 1).drop_last() =~= t.take(i as int));
            assert(t.take(i + 1).last() == spec_view(g));
        }
        if g.bandwidth_gb_s >= min_bandwidth_gb_s && g.vram_gb >= min_vram_gb {
            let ghost ov = specs_view(out@);
            let mut slot: usize = out.len();
            assert(ov.subrange(0, slot as int) =~= ov);
            while slot > 0 && out[slot - 1].bandwidth_gb_s > g.bandwidth_gb_s
                invariant
                    slot <= out.len(),
                    ov == specs_view(out@),
                    bandwidth_slot(ov, g.bandwidth_gb_s as nat) == bandwidth_slot(ov.subrange(0, slot as int), g.bandwidth_gb_s as nat),
                    forall|b: int| slot <= b < out.len() ==> (#[trigger] out@[b]).bandwidth_gb_s > g.bandwidth_gb_s,
                decreases slot,
            {
                assert(ov.subrange(0, slot as int).drop_last() =~= ov.subrange(0, slot - 1));
                assert(ov.subrange(0, slot as int).last() == spec_view(out@[slot - 1]));
                slot = slot - 1;
            }
            proof {
                if slot > 0 {
                    assert(ov.subrange(0, slot as int).last() == spec_view(out@[slot - 1]));
                } else {
                    assert(ov.subrange(0, 0) =~= seq![]);
                }
            }
            let ghost old_out = out@;
            out.insert(slot, g);
            proof {
                assert(specs_view(out@) =~= ov.insert(slot as int, spec_view(g)));
                assert forall|a: int, b: int| 0 <= a < b < out.len() implies (#[trigger] out@[a]).bandwidth_gb_s <= (#[trigger] out@[b]).bandwidth_gb_s by {
                    if b < slot {
                        assert(out@[a] == old_out[a] && out@[b] == old_out[b]);
                    } else if b == slot {
                        assert(out@[a] == old_out[a]);
                        assert(old_out[slot - 1].bandwidth_gb_s <= g.bandwidth_gb_s);
                        if a < slot - 1 {
                            assert(old_out[a].bandwidth_gb_s <= old_out[slot - 1].bandwidth_gb_s);
                        }
                    } else if a == slot {
                        assert(out@[b] == old_out[b - 1]);
                    } else if a < slot {
                        assert(out@[a] == old_out[a] && out@[b] == old_out[b - 1]);
                    } else {
                        assert(out@[a] == old_out[a - 1] && out@[b] == old_out[b - 1]);
                    }
                }
                assert forall|a: int| 0 <= a < out.len() implies (#[trigger] out@[a]).bandwidth_gb_s >= min_bandwidth_gb_s && out@[a].vram_gb >= min_vram_gb by {
                    if a < slot {
                        assert(out@[a] == old_out[a]);
                    } else if a > slot {
                        assert(out@[a] == old_out[a - 1]);
                    }
                }
            }
        }
        i = i + 1;
    }
    assert(t.take(i as int) =~= t);
    out
}

/// Whether a reported adapter name belongs to `vendor`.
pub open spec fn vendor_matches(name: Seq<char>, vendor: Vendor) -> bool {
    let l = lower_seq(name);
    match vendor {
        Vendor::Amd => contains_seq(l, "amd"@) || contains_seq(l, "radeon"@) || contains_seq(l, "instinct"@),
        Vendor::Intel => contains_seq(l, "intel"@) || contains_seq(l, "arc"@),
        Vendor::Nvidia => contains_seq(l, "nvidia"@) || contains_seq(l, "geforce"@),
        Vendor::Apple => contains_seq(l, "apple"@),
        Vendor::Unknown => true,
    }
}

pub fn matches_vendor(name: &str, vendor: Vendor) -> (r: bool)
    ensures
        r == vendor_matches(name@, vendor),
{
    let l = lower_vec(chars_of(name).as_slice());
    let l = l.as_slice();
    match vendor {
        Vendor::Amd => contains_str(l, "amd") || contains_str(l, "radeon") || contains_str(l, "instinct"),
        Vendor::Intel => contains_str(l, "intel") || contains_str(l, "arc"),
        Vendor::Nvidia => contains_str(l, "nvidia") || contains_str(l, "geforce"),
        Vendor::Apple => contains_str(l, "apple"),
        Vendor::Unknown => true,
    }
}

/// The backend inference will use: decided by the first GPU's vendor, or by
/// the CPU architecture when there is no GPU.
pub open spec fn backend_choice(first_vendor: Option<Vendor>, arch: Seq<char>) -> Backend {
    match first_vendor {
        Some(Vendor::Nvidia) => Backend::Cuda,
        Some(Vendor::Amd) => Backend::Rocm,
        Some(Vendor::Intel) => Backend::Sycl,
        Some(Vendor::Apple) => Backend::Metal,
        Some(Vendor::Unknown) => Backend::Cuda,
        None => if contains_seq(arch, "aarch64"@) || contains_seq(arch, "arm"@) {
            Backend::CpuArm
        } else {
            Backend::CpuX86
        },
    }
}

/// The inference backend for a machine whose first GPU (if any) is by
/// `first_vendor`, on CPU architecture `arch`.
pub fn backend_for(first_vendor: Option<Vendor>, arch: &str) -> (r: Backend)
    ensures
        r == backend_choice(first_vendor, arch@),
{
    match first_vendor {
        Some(Vendor::Nvidia) => Backend::Cuda,
        Some(Vendor::Amd) => Backend::Rocm,
        Some(Vendor::Intel) => Backend::Sycl,
        Some(Vendor::Apple) => Backend::Metal,
        Some(Vendor::Unknown) => Backend::Cuda,
        None => {
            let a = chars_of(arch);
            if contains_str(a.as_slice(), "aarch64") || contains_str(a.as_slice(), "arm") {
                Backend::CpuArm
            } else {
                Backend::CpuX86
            }
        },
    }
}

/// The sum of a sequence of words, wrapping at 2^64.
pub open spec fn wrapping_total(s: Seq<u64>) -> nat
    decreases s.len(),
{
    if s.len() == 0 {
        0
    } else {
        ((wrapping_total(s.drop_last()) + s.last()) % 18446744073709551616) as nat
    }
}

/// Sequential read of a whole buffer, as the memory probe times it.
pub fn sum(buffer: &[u64]) -> (r: u64)
    ensures
        r == wrapping_total(buffer@),
{
    let mut acc: u64 = 0;
    let mut i: usize = 0;
    assert(buffer@.take(0) =~= seq![]);
    while i < buffer.len()
        invariant
            i <= buffer.len(),
            acc == wrapping_total(buffer@.take(i as int)),
        decreases buffer.len() - i,
    {
        assert(buffer@.take(i + 1).drop_last() =~= buffer@.take(i as int));
        assert(buffer@.take(i + 1).last() == buffer@[i as int]);
        acc = acc.wrapping_add(buffer[i]);
        i = i + 1;
    }
    assert(buffer@.take(i as int) =~= buffer@);
    acc
}


// ---------------------------------------------------------------------------
// What the probes print
// ---------------------------------------------------------------------------

/// One `DriverDesc|qwMemorySize` line of the Windows adapter listing: the
/// adapter's name and its size text, when the line has both parts and the
/// name is one of `vendor`'s.
pub open spec fn adapter_fields(line: Seq<char>, vendor: Vendor) -> Option<(Seq<char>, Seq<char>)> {
    match split_once(line, '|') {
        None => None,
        Some(parts) => if trim(parts.0).len() == 0 || !vendor_matches(trim(parts.0), vendor) {
            None
        } else {
            Some((trim(parts.0), trim(parts.1)))
        },
    }
}

/// One line of `nvidia-smi --query-gpu=name,memory.total`: the card's name
/// and, when the line has a second column, its memory text.
pub open spec fn nvidia_fields(line: Seq<char>) -> Option<(Seq<char>, Option<Seq<char>>)> {
    match split_once(line, ',') {
        None => if trim(line).len() == 0 {
            None
        } else {
            Some((trim(line), None))
        },
        Some(parts) => if trim(parts.0).len() == 0 {
            None
        } else {
            Some((trim(parts.0), Some(trim(parts.1))))
        },
    }
}

/// The text after the last `c` in `s`; all of `s` when there is none.
pub open spec fn after_last(s: Seq<char>, c: char) -> Seq<char>
    decreases s.len(),
{
    if s.len() == 0 {
        s
    } else if s.last() == c {
        Seq::empty()
    } else {
        after_last(s.drop_last(), c).push(s.last())
    }
}

/// One line of `lspci`: the card's name when the line is an Intel Arc VGA
/// controller. The name is what follows the line's last colon.
pub open spec fn intel_arc_name(line: Seq<char>) -> Option<Seq<char>> {
    let l = lower_seq(line);
    if contains_seq(l, "vga"@) && contains_seq(l, "intel"@) && contains_seq(l, "arc"@) {
        Some(trim(after_last(line, ':')))
    } else {
        None
    }
}

/// `str::split` on one character: the pieces between the separators.
pub open spec fn split_all(s: Seq<char>, c: char) -> Seq<Seq<char>>
    decreases s.len(),
{
    match find_char(s, c) {
        None => seq![s],
        Some(i) => {
            proof {
                lemma_find_char(s, c);
            }
            seq![s.take(i as int)] + split_all(s.skip(i as int + 1), c)
        },
    }
}

/// Each piece trimmed.
pub open spec fn trim_each(pieces: Seq<Seq<char>>) -> Seq<Seq<char>> {
    pieces.map_values(|f: Seq<char>| trim(f))
}

/// The comma-separated fields of a line, each trimmed.
pub open spec fn csv_fields(line: Seq<char>) -> Seq<Seq<char>> {
    trim_each(split_all(line, ','))
}

/// The first field that names an AMD card, from `k` on.
pub open spec fn amd_card_name(fields: Seq<Seq<char>>, k: int) -> Option<Seq<char>>
    decreases fields.len() - k,
{
    if k < 0 || k >= fields.len() {
        None
    } else if contains_seq(lower_seq(fields[k]), "radeon"@) || contains_seq(lower_seq(fields[k]), "instinct"@) {
        Some(fields[k])
    } else {
        amd_card_name(fields, k + 1)
    }
}

/// One row of `rocm-smi --showproductname --showmeminfo vram --csv`: the
/// card's name and the row's fields, when the row is a card's. A row whose
/// fields name no card is reported as "AMD GPU".
pub open spec fn amd_row(line: Seq<char>) -> Option<(Seq<char>, Seq<Seq<char>>)> {
    let f = csv_fields(line);
    if f.len() < 2 || !starts_with(f[0], "card"@) {
        None
    } else {
        Some((
            match amd_card_name(f, 0) {
                Some(n) => n,
                None => "AMD GPU"@,
            },
            f,
        ))
    }
}

fn trimmed(v: &[char], from: usize, to: usize) -> (r: Vec<char>)
    requires
        from <= to <= v.len(),
    ensures
        r@ == trim(v@.subrange(from as int, to as int)),
{
    trim_vec(vstd::slice::slice_subrange(v, from, to))
}

/// Read one line of the Windows adapter listing.
pub fn windows_adapter(line: &str, vendor: Vendor) -> (r: Option<(String, String)>)
    ensures
        match r {
            Some(p) => adapter_fields(line@, vendor) == Some((p.0@, p.1@)),
            None => adapter_fields(line@, vendor) is None,
        },
{
    let v = chars_of(line);
    let n = v.len();
    assert(v@.subrange(0, n as int) =~= v@);
    match find_in(v.as_slice(), 0, n, '|') {
        None => None,
        Some(i) => {
            assert(v@.take(i as int) =~= v@.subrange(0, i as int));
            assert(v@.skip(i + 1) =~= v@.subrange(i + 1, n as int));
            let name = trimmed(v.as_slice(), 0, i);
            if name.len() == 0 {
                return None;
            }
            let name = string_of(name.as_slice());
            if !matches_vendor(name.as_str(), vendor) {
                return None;
            }
            let size = trimmed(v.as_slice(), i + 1, n);
            Some((name, string_of(size.as_slice())))
        },
    }
}

/// Read one line of `nvidia-smi`'s name and memory listing.
pub fn nvidia_line(line: &str) -> (r: Option<(String, Option<String>)>)
    ensures
        match r {
            Some(p) => nvidia_fields(line@) == Some((p.0@, match p.1 {
                Some(m) => Some(m@),
                None => None,
            })),
            None => nvidia_fields(line@) is None,
        },
{
    let v = chars_of(line);
    let n = v.len();
    assert(v@.subrange(0, n as int) =~= v@);
    match find_in(v.as_slice(), 0, n, ',') {
        None => {
            let name = trimmed(v.as_slice(), 0, n);
            if name.len() == 0 {
                None
            } else {
                Some((string_of(name.as_slice()), None))
            }
        },
        Some(i) => {
            assert(v@.take(i as int) =~= v@.subrange(0, i as int));
            assert(v@.skip(i + 1) =~= v@.subrange(i + 1, n as int));
            let name = trimmed(v.as_slice(), 0, i);
            if name.len() == 0 {
                None
            } else {
                let memory = trimmed(v.as_slice(), i + 1, n);
                Some((string_of(name.as_slice()), Some(string_of(memory.as_slice()))))
            }
        },
    }
}

proof fn lemma_after_last(s: Seq<char>, c: char, k: int)
    requires
        -1 <= k < s.len(),
        k >= 0 ==> s[k] == c,
        forall|j: int| k < j < s.len() ==> s[j] != c,
    ensures
        after_last(s, c) == s.skip(k + 1),
    decreases s.len(),
{
    if s.len() == 0 {
        assert(s.skip(k + 1) =~= s);
    } else if s.len() == k + 1 {
        assert(s.skip(k + 1) =~= Seq::<char>::empty());
    } else {
        lemma_after_last(s.drop_last(), c, k);
        assert(s.drop_last().skip(k + 1).push(s.last()) =~= s.skip(k + 1));
    }
}

/// Read one line of `lspci`, keeping Intel Arc cards.
pub fn intel_line(line: &str) -> (r: Option<String>)
    ensures
        match r {
            Some(name) => intel_arc_name(line@) == Some(name@),
            None => intel_arc_name(line@) is None,
        },
{
    let v = chars_of(line);
    let l = lower_vec(v.as_slice());
    let l = l.as_slice();
    if !(contains_str(l, "vga") && contains_str(l, "intel") && contains_str(l, "arc")) {
        return None;
    }
    let n = v.len();
    let mut k: usize = n;
    while k > 0 && v[k - 1] != ':'
        invariant
            k <= n,
            n == v@.len(),
            forall|j: int| k <= j < n ==> v@[j] != ':',
        decreases k,
    {
        k = k - 1;
    }
    proof {
        lemma_after_last(v@, ':', k - 1);
    }
    let name = trimmed(v.as_slice(), k, n);
    assert(v@.skip(k as int) =~= v@.subrange(k as int, n as int));
    Some(string_of(name.as_slice()))
}

/// `split_all` continues from any separator onwards.
proof fn lemma_split_step(s: Seq<char>, c: char)
    ensures
        find_char(s, c) matches Some(i) ==> split_all(s, c) == seq![s.take(i as int)] + split_all(s.skip(i as int + 1), c),
        find_char(s, c) is None ==> split_all(s, c) == seq![s],
{
}

fn split_trimmed(v: &[char], c: char) -> (r: Vec<String>)
    ensures
        texts(r@) == trim_each(split_all(v@, c)),
{
    let n = v.len();
    let mut out: Vec<String> = Vec::new();
    let mut start: usize = 0;
    let ghost mut done: Seq<Seq<char>> = Seq::empty();
    assert(v@.skip(0) =~= v@);
    loop
        invariant
            start <= n,
            n == v.len(),
            split_all(v@, c) == done + split_all(v@.skip(start as int), c),
            texts(out@) == trim_each(done),
        decreases n - start,
    {
        let ghost rest = v@.skip(start as int);
        assert(rest =~= v@.subrange(start as int, n as int));
        proof {
            lemma_split_step(rest, c);
        }
        match find_in(v, start, n, c) {
            None => {
                let piece = trimmed(v, start, n);
                let s = string_of(piece.as_slice());
                let ghost old_out = out@;
                let ghost sv = s@;
                out.push(s);
                proof {
                    let d2 = done.push(rest);
                    assert(done + seq![rest] =~= d2);
                    assert(texts(old_out).len() == trim_each(done).len());
                    assert(out@.len() == d2.len());
                    assert(sv == trim(rest));
                    assert(out@[old_out.len() as int]@ == sv);
                    assert forall|k: int| 0 <= k < out@.len() implies texts(out@)[k] == trim_each(d2)[k] by {
                        if k < old_out.len() {
                            assert(texts(old_out)[k] == trim_each(done)[k]);
                        }
                    }
                    assert(texts(out@) =~= trim_each(d2));
                    assert(split_all(v@, c) =~= d2);
                }
                return out;
            },
            Some(i) => {
                let piece = trimmed(v, start, i);
                let s = string_of(piece.as_slice());
                let ghost old_out = out@;
                let ghost sv = s@;
                out.push(s);
                proof {
                    let j = (i - start) as int;
                    assert(rest.take(j) =~= v@.subrange(start as int, i as int));
                    assert(rest.skip(j + 1) =~= v@.skip(i + 1));
                    let d2 = done.push(rest.take(j));
                    assert(texts(old_out).len() == trim_each(done).len());
                    assert(out@.len() == d2.len());
                    assert(sv == trim(rest.take(j)));
                    assert(out@[old_out.len() as int]@ == sv);
                    assert(done + (seq![rest.take(j)] + split_all(rest.skip(j + 1), c)) =~= d2 + split_all(v@.skip(i + 1), c));
                    assert forall|k: int| 0 <= k < out@.len() implies texts(out@)[k] == trim_each(d2)[k] by {
                        if k < old_out.len() {
                            assert(texts(old_out)[k] == trim_each(done)[k]);
                        }
                    }
                    assert(texts(out@) =~= trim_each(d2));
                    done = d2;
                }
                start = i + 1;
            },
        }
    }
}

/// Read one row of `rocm-smi`'s product and memory listing.
pub fn amd_line(line: &str) -> (r: Option<(String, Vec<String>)>)
    ensures
        match r {
            Some(p) => amd_row(line@) == Some((p.0@, texts(p.1@))),
            None => amd_row(line@) is None,
        },
{
    let v = chars_of(line);
    let fields = split_trimmed(v.as_slice(), ',');
    let ghost f = csv_fields(line@);
    assert(texts(fields@) =~= f);
    if fields.len() < 2 {
        return None;
    }
    let first = chars_of(fields[0].as_str());
    let card = chars_of("card");
    assert(f[0] == fields@[0]@);
    if !(card.len() <= first.len() && crate::text::matches_at(first.as_slice(), card.as_slice(), 0)) {
        return None;
    }
    assert(starts_with(f[0], "card"@));
    let mut k: usize = 0;
    while k < fields.len()
        invariant
            k <= fields.len(),
            texts(fields@) == f,
            f == csv_fields(line@),
            f.len() >= 2,
            starts_with(f[0], "card"@),
            amd_card_name(f, 0) == amd_card_name(f, k as int),
        decreases fields.len() - k,
    {
        let l = lower_vec(chars_of(fields[k].as_str()).as_slice());
        assert(f[k as int] == fields@[k as int]@);
        if contains_str(l.as_slice(), "radeon") || contains_str(l.as_slice(), "instinct") {
            let name = fields[k].clone();
            return Some((name, fields));
        }
        k = k + 1;
    }
    Some((crate::text::owned("AMD GPU"), fields))
}

// ---------------------------------------------------------------------------
// Sizes on the command line
// ---------------------------------------------------------------------------

/// The unit a size is written in.
#[derive(Debug, Clone, Copy, PartialEq, Eq, Structural)]
pub enum SizeUnit {
    Kilo,
    Mega,
    Giga,
    Tera,
}

/// How many digits and decimal points a size starts with.
pub open spec fn number_len(s: Seq<char>) -> nat
    decreases s.len(),
{
    if s.len() > 0 && (crate::text::is_digit(s[0]) || s[0] == '.') {
        1 + number_len(s.drop_first())
    } else {
        0
    }
}

/// A size as written, e.g. `24G` or ` 512 mib `: the number's text and the
/// suffix after it, once the whole is trimmed; `None` when it is blank.
pub open spec fn size_parts(input: Seq<char>) -> Option<(Seq<char>, Seq<char>)> {
    let t = trim(input);
    if t.len() == 0 {
        None
    } else {
        Some((t.take(number_len(t) as int), t.skip(number_len(t) as int)))
    }
}

/// The unit a suffix names, case and surrounding space aside; none is GB.
pub open spec fn unit_named(suffix: Seq<char>) -> Option<SizeUnit> {
    let u = lower_seq(trim(suffix));
    if u.len() == 0 || u == "g"@ || u == "gb"@ || u == "gib"@ {
        Some(SizeUnit::Giga)
    } else if u == "m"@ || u == "mb"@ || u == "mib"@ {
        Some(SizeUnit::Mega)
    } else if u == "t"@ || u == "tb"@ || u == "tib"@ {
        Some(SizeUnit::Tera)
    } else if u == "k"@ || u == "kb"@ || u == "kib"@ {
        Some(SizeUnit::Kilo)
    } else {
        None
    }
}

proof fn lemma_number_len(s: Seq<char>, k: int)
    requires
        0 <= k <= s.len(),
        forall|j: int| 0 <= j < k ==> crate::text::is_digit(#[trigger] s[j]) || s[j] == '.',
        k == s.len() || !(crate::text::is_digit(s[k]) || s[k] == '.'),
    ensures
        number_len(s) == k,
    decreases k,
{
    if k > 0 {
        lemma_number_len(s.drop_first(), k - 1);
    }
}

/// Split a size into its number and its suffix.
pub fn split_size(input: &str) -> (r: Option<(String, String)>)
    ensures
        match r {
            Some(p) => size_parts(input@) == Some((p.0@, p.1@)),
            None => size_parts(input@) is None,
        },
{
    let t = trim_vec(chars_of(input).as_slice());
    if t.len() == 0 {
        return None;
    }
    let mut k: usize = 0;
    while k < t.len() && (crate::text::is_digit_char(t[k]) || t[k] == '.')
        invariant
            k <= t.len(),
            forall|j: int| 0 <= j < k ==> crate::text::is_digit(#[trigger] t@[j]) || t@[j] == '.',
        decreases t.len() - k,
    {
        k = k + 1;
    }
    proof {
        lemma_number_len(t@, k as int);
    }
    let number = string_of(vstd::slice::slice_subrange(t.as_slice(), 0, k));
    let suffix = string_of(vstd::slice::slice_subrange(t.as_slice(), k, t.len()));
    assert(number@ =~= t@.take(k as int));
    assert(suffix@ =~= t@.skip(k as int));
    Some((number, suffix))
}

/// The unit a size's suffix names, or the message for one that names none.
pub fn size_unit(suffix: &str) -> (r: Result<SizeUnit, String>)
    ensures
        match unit_named(suffix@) {
            Some(u) => r == Ok::<SizeUnit, String>(u),
            None => r matches Err(e) && e@ == "unknown unit '"@ + lower_seq(trim(suffix@)) + "': use G, M or T"@,
        },
{
    let u = lower_vec(trim_vec(chars_of(suffix).as_slice()).as_slice());
    let v = u.as_slice();
    if v.len() == 0 || crate::text::eq_str(v, "g") || crate::text::eq_str(v, "gb") || crate::text::eq_str(v, "gib") {
        Ok(SizeUnit::Giga)
    } else if crate::text::eq_str(v, "m") || crate::text::eq_str(v, "mb") || crate::text::eq_str(v, "mib") {
        Ok(SizeUnit::Mega)
    } else if crate::text::eq_str(v, "t") || crate::text::eq_str(v, "tb") || crate::text::eq_str(v, "tib") {
        Ok(SizeUnit::Tera)
    } else if crate::text::eq_str(v, "k") || crate::text::eq_str(v, "kb") || crate::text::eq_str(v, "kib") {
        Ok(SizeUnit::Kilo)
    } else {
        let mut e = crate::text::owned("unknown unit '");
        crate::text::push_all(&mut e, v);
        e.append("': use G, M or T");
        Err(e)
    }
}
/// True when `b` is `a`, or `a` followed by a space and more: `b` starts
/// with the words of `a`.
pub open spec fn word_prefix(a: Seq<char>, b: Seq<char>) -> bool
    decreases a.len(),
{
    if a.len() == 0 {
        b.len() == 0 || b[0] == ' '
    } else {
        b.len() > 0 && a[0] == b[0] && word_prefix(a.drop_first(), b.drop_first())
    }
}

/// The fragment of the table's `i`th entry.
pub open spec fn fragment_at(i: int) -> Seq<char> {
    gpu_specs()[i].0
}

/// No fragment among the first `k` entries is the start of entry `j`'s,
/// word for word.
pub open spec fn no_earlier_prefix(j: int, k: nat) -> bool
    decreases k,
{
    k == 0 || (!word_prefix(fragment_at(k - 1), fragment_at(j)) && no_earlier_prefix(j, (k - 1) as nat))
}

/// Every entry before `n` passes `no_earlier_prefix` against all entries
/// before it.
pub open spec fn prefixes_ordered(n: nat) -> bool
    decreases n,
{
    n == 0 || (no_earlier_prefix(n - 1, (n - 1) as nat) && prefixes_ordered((n - 1) as nat))
}

proof fn lemma_no_earlier_prefix(j: int, k: nat, i: int)
    requires
        no_earlier_prefix(j, k),
        0 <= i < k,
    ensures
        !word_prefix(fragment_at(i), fragment_at(j)),
    decreases k,
{
    if i < k - 1 {
        lemma_no_earlier_prefix(j, (k - 1) as nat, i);
    }
}

proof fn lemma_prefixes_ordered(n: nat, j: int)
    requires
        prefixes_ordered(n),
        0 <= j < n,
    ensures
        no_earlier_prefix(j, j as nat),
    decreases n,
{
    if j < n - 1 {
        lemma_prefixes_ordered((n - 1) as nat, j);
    }
}

#[verifier::spinoff_prover]
#[verifier::rlimit(100)]
proof fn lemma_table_rows_0()
    ensures
        no_earlier_prefix(1, 1),
        no_earlier_prefix(2, 2),
        no_earlier_prefix(3, 3),
        no_earlier_prefix(4, 4),
        no_earlier_prefix(5, 5),
        no_earlier_prefix(6, 6),
        no_earlier_prefix(7, 7),
        no_earlier_prefix(8, 8),
        no_earlier_prefix(9, 9),
        no_earlier_prefix(10, 10),
        no_earlier_prefix(11, 11),
        no_earlier_prefix(12, 12),
{
    reveal_strlit("h200");
    reveal_strlit("h100 pcie");
    reveal_strlit("h100");
    reveal_strlit("a100 80");
    reveal_strlit("a100");
    reveal_strlit("l40s");
    reveal_strlit("l40");
    reveal_strlit("l4");
    reveal_strlit("a40");
    reveal_strlit("a30");
    reveal_strlit("a10g");
    reveal_strlit("a10");
    reveal_strlit("v100");
    assert(no_earlier_prefix(1, 1)) by {
        reveal_with_fuel(no_earlier_prefix, 2);
        reveal_with_fuel(word_prefix, 10);
    }
    assert(no_earlier_prefix(2, 2)) by {
        reveal_with_fuel(no_earlier_prefix, 3);
        reveal_with_fuel(word_prefix, 10);
    }
    assert(no_earlier_prefix(3, 3)) by {
        reveal_with_fuel(no_earlier_prefix, 4);
        reveal_with_fuel(word_prefix, 10);
    }
    assert(no_earlier_prefix(4, 4)) by {
        reveal_with_fuel(no_earlier_prefix, 5);
        reveal_with_fuel(word_prefix, 10);
    }
    assert(no_earlier_prefix(5, 5)) by {
        reveal_with_fuel(no_earlier_prefix, 6);
        reveal_with_fuel(word_prefix, 10);
    }
    assert(no_earlier_prefix(6, 6)) by {
        reveal_with_fuel(no_earlier_prefix, 7);
        reveal_with_fuel(word_prefix, 10);
    }
    assert(no_earlier_prefix(7, 7)) by {
        reveal_with_fuel(no_earlier_prefix, 8);
        reveal_with_fuel(word_prefix, 10);
    }
    assert(no_earlier_prefix(8, 8)) by {
        reveal_with_fuel(no_earlier_prefix, 9);
        reveal_with_fuel(word_prefix, 10);
    }
    assert(no_earlier_prefix(9, 9)) by {
        reveal_with_fuel(no_earlier_prefix, 10);
        reveal_with_fuel(word_prefix, 10);
    }
    assert(no_earlier_prefix(10, 10)) by {
        reveal_with_fuel(no_earlier_prefix, 11);
        reveal_with_fuel(word_prefix, 10);
    }
    assert(no_earlier_prefix(11, 11)) by {
        reveal_with_fuel(no_earlier_prefix, 12);
        reveal_with_fuel(word_prefix, 10);
    }
    assert(no_earlier_prefix(12, 12)) by {
        reveal_with_fuel(no_earlier_prefix, 13);
        reveal_with_fuel(word_prefix, 10);
    }
}

#[verifier::spinoff_prover]
#[verifier::rlimit(100)]
proof fn lemma_table_rows_1()
    ensures
        no_earlier_prefix(13, 13),
        no_earlier_prefix(14, 14),
        no_earlier_prefix(15, 15),
        no_earlier_prefix(16, 16),
        no_earlier_prefix(17, 17),
        no_earlier_prefix(18, 18),
        no_earlier_prefix(19, 19),
        no_earlier_prefix(20, 20),
        no_earlier_prefix(21, 21),
        no_earlier_prefix(22, 22),
        no_earlier_prefix(23, 23),
        no_earlier_prefix(24, 24),
{
    reveal_strlit("h200");
    reveal_strlit("h100 pcie");
    reveal_strlit("h100");
    reveal_strlit("a100 80");
    reveal_strlit("a100");
    reveal_strlit("l40s");
    reveal_strlit("l40");
    reveal_strlit("l4");
    reveal_strlit("a40");
    reveal_strlit("a30");
    reveal_strlit("a10g");
    reveal_strlit("a10");
    reveal_strlit("v100");
    reveal_strlit("t4");
    reveal_strlit("rtx 6000 ada");
    reveal_strlit("rtx a6000");
    reveal_strlit("rtx a5000");
    reveal_strlit("rtx a4000");
    reveal_strlit("5090");
    reveal_strlit("5080");
    reveal_strlit("5070 ti");
    reveal_strlit("5070");
    reveal_strlit("5060 ti");
    reveal_strlit("5060");
    reveal_strlit("4090 laptop");
    assert(no_earlier_prefix(13, 13)) by {
        reveal_with_fuel(no_earlier_prefix, 14);
        reveal_with_fuel(word_prefix, 10);
    }
    assert(no_earlier_prefix(14, 14)) by {
        reveal_with_fuel(no_earlier_prefix, 15);
        reveal_with_fuel(word_prefix, 10);
    }
    assert(no_earlier_prefix(15, 15)) by {
        reveal_with_fuel(no_earlier_prefix, 16);
        reveal_with_fuel(word_prefix, 10);
    }
    assert(no_earlier_prefix(16, 16)) by {
        reveal_with_fuel(no_earlier_prefix, 17);
        reveal_with_fuel(word_prefix, 10);
    }
    assert(no_earlier_prefix(17, 17)) by {
        reveal_with_fuel(no_earlier_prefix, 18);
        reveal_with_fuel(word_prefix, 10);
    }
    assert(no_earlier_prefix(18, 18)) by {
        reveal_with_fuel(no_earlier_prefix, 19);
        reveal_with_fuel(word_prefix, 10);
    }
    assert(no_earlier_prefix(19, 19)) by {
        reveal_with_fuel(no_earlier_prefix, 20);
        reveal_with_fuel(word_prefix, 10);
    }
    assert(no_earlier_prefix(20, 20)) by {
        reveal_with_fuel(no_earlier_prefix, 21);
        reveal_with_fuel(word_prefix, 10);
    }
    assert(no_earlier_prefix(21, 21)) by {
        reveal_with_fuel(no_earlier_prefix, 22);
        reveal_with_fuel(word_prefix, 10);
    }
    assert(no_earlier_prefix(22, 22)) by {
        reveal_with_fuel(no_earlier_prefix, 23);
        reveal_with_fuel(word_prefix, 10);
    }
    assert(no_earlier_prefix(23, 23)) by {
        reveal_with_fuel(no_earlier_prefix, 24);
        reveal_with_fuel(word_prefix, 10);
    }
    assert(no_earlier_prefix(24, 24)) by {
        reveal_with_fuel(no_earlier_prefix, 25);
        reveal_with_fuel(word_prefix, 10);
    }
}

#[verifier::spinoff_prover]
#[verifier::rlimit(100)]
proof fn lemma_table_rows_2()
    ensures
        no_earlier_prefix(25, 25),
        no_earlier_prefix(26, 26),
        no_earlier_prefix(27, 27),
        no_earlier_prefix(28, 28),
        no_earlier_prefix(29, 29),
        no_earlier_prefix(30, 30),
        no_earlier_prefix(31, 31),
        no_earlier_prefix(32, 32),
        no_earlier_prefix(33, 33),
        no_earlier_prefix(34, 34),
        no_earlier_prefix(35, 35),
        no_earlier_prefix(36, 36),
{
    reveal_strlit("h200");
    reveal_strlit("h100 pcie");
    reveal_strlit("h100");
    reveal_strlit("a100 80");
    reveal_strlit("a100");
    reveal_strlit("l40s");
    reveal_strlit("l40");
    reveal_strlit("l4");
    reveal_strlit("a40");
    reveal_strlit("a30");
    reveal_strlit("a10g");
    reveal_strlit("a10");
    reveal_strlit("v100");
    reveal_strlit("t4");
    reveal_strlit("rtx 6000 ada");
    reveal_strlit("rtx a6000");
    reveal_strlit("rtx a5000");
    reveal_strlit("rtx a4000");
    reveal_strlit("5090");
    reveal_strlit("5080");
    reveal_strlit("5070 ti");
    reveal_strlit("5070");
    reveal_strlit("5060 ti");
    reveal_strlit("5060");
    reveal_strlit("4090 laptop");
    reveal_strlit("4080 laptop");
    reveal_strlit("4070 laptop");
    reveal_strlit("4060 laptop");
    reveal_strlit("4050 laptop");
    reveal_strlit("4090");
    reveal_strlit("4080 super");
    reveal_strlit("4080");
    reveal_strlit("4070 ti super");
    reveal_strlit("4070 ti");
    reveal_strlit("4070 super");
    reveal_strlit("4070");
    reveal_strlit("4060 ti");
    assert(no_earlier_prefix(25, 25)) by {
        reveal_with_fuel(no_earlier_prefix, 26);
        reveal_with_fuel(word_prefix, 10);
    }
    assert(no_earlier_prefix(26, 26)) by {
        reveal_with_fuel(no_earlier_prefix, 27);
        reveal_with_fuel(word_prefix, 10);
    }
    assert(no_earlier_prefix(27, 27)) by {
        reveal_with_fuel(no_earlier_prefix, 28);
        reveal_with_fuel(word_prefix, 10);
    }
    assert(no_earlier_prefix(28, 28)) by {
        reveal_with_fuel(no_earlier_prefix, 29);
        reveal_with_fuel(word_prefix, 10);
    }
    assert(no_earlier_prefix(29, 29)) by {
        reveal_with_fuel(no_earlier_prefix, 30);
        reveal_with_fuel(word_prefix, 10);
    }
    assert(no_earlier_prefix(30, 30)) by {
        reveal_with_fuel(no_earlier_prefix, 31);
        reveal_with_fuel(word_prefix, 10);
    }
    assert(no_earlier_prefix(31, 31)) by {
        reveal_with_fuel(no_earlier_prefix, 32);
        reveal_with_fuel(word_prefix, 10);
    }
    assert(no_earlier_prefix(32, 32)) by {
        reveal_with_fuel(no_earlier_prefix, 33);
        reveal_with_fuel(word_prefix, 10);
    }
    assert(no_earlier_prefix(33, 33)) by {
        reveal_with_fuel(no_earlier_prefix, 34);
        reveal_with_fuel(word_prefix, 10);
    }
    assert(no_earlier_prefix(34, 34)) by {
        reveal_with_fuel(no_earlier_prefix, 35);
        reveal_with_fuel(word_prefix, 10);
    }
    assert(no_earlier_prefix(35, 35)) by {
        reveal_with_fuel(no_earlier_prefix, 36);
        reveal_with_fuel(word_prefix, 10);
    }
    assert(no_earlier_prefix(36, 36)) by {
        reveal_with_fuel(no_earlier_prefix, 37);
        reveal_with_fuel(word_prefix, 10);
    }
}

#[verifier::spinoff_prover]
#[verifier::rlimit(100)]
proof fn lemma_table_rows_3()
    ensures
        no_earlier_prefix(37, 37),
        no_earlier_prefix(38, 38),
        no_earlier_prefix(39, 39),
        no_earlier_prefix(40, 40),
        no_earlier_prefix(41, 41),
        no_earlier_prefix(42, 42),
        no_earlier_prefix(43, 43),
        no_earlier_prefix(44, 44),
        no_earlier_prefix(45, 45),
        no_earlier_prefix(46, 46),
        no_earlier_prefix(47, 47),
        no_earlier_prefix(48, 48),
{
    reveal_strlit("h200");
    reveal_strlit("h100 pcie");
    reveal_strlit("h100");
    reveal_strlit("a100 80");
    reveal_strlit("a100");
    reveal_strlit("l40s");
    reveal_strlit("l40");
    reveal_strlit("l4");
    reveal_strlit("a40");
    reveal_strlit("a30");
    reveal_strlit("a10g");
    reveal_strlit("a10");
    reveal_strlit("v100");
    reveal_strlit("t4");
    reveal_strlit("rtx 6000 ada");
    reveal_strlit("rtx a6000");
    reveal_strlit("rtx a5000");
    reveal_strlit("rtx a4000");
    reveal_strlit("5090");
    reveal_strlit("5080");
    reveal_strlit("5070 ti");
    reveal_strlit("5070");
    reveal_strlit("5060 ti");
    reveal_strlit("5060");
    reveal_strlit("4090 laptop");
    reveal_strlit("4080 laptop");
    reveal_strlit("4070 laptop");
    reveal_strlit("4060 laptop");
    reveal_strlit("4050 laptop");
    reveal_strlit("4090");
    reveal_strlit("4080 super");
    reveal_strlit("4080");
    reveal_strlit("4070 ti super");
    reveal_strlit("4070 ti");
    reveal_strlit("4070 super");
    reveal_strlit("4070");
    reveal_strlit("4060 ti");
    reveal_strlit("4060");
    reveal_strlit("3090 ti");
    reveal_strlit("3090");
    reveal_strlit("3080 ti");
    reveal_strlit("3080");
    reveal_strlit("3070 ti");
    reveal_strlit("3070");
    reveal_strlit("3060 ti");
    reveal_strlit("3060");
    reveal_strlit("3050");
    reveal_strlit("2080 ti");
    reveal_strlit("2080");
    assert(no_earlier_prefix(37, 37)) by {
        reveal_with_fuel(no_earlier_prefix, 38);
        reveal_with_fuel(word_prefix, 10);
    }
    assert(no_earlier_prefix(38, 38)) by {
        reveal_with_fuel(no_earlier_prefix, 39);
        reveal_with_fuel(word_prefix, 10);
    }
    assert(no_earlier_prefix(39, 39)) by {
        reveal_with_fuel(no_earlier_prefix, 40);
        reveal_with_fuel(word_prefix, 10);
    }
    assert(no_earlier_prefix(40, 40)) by {
        reveal_with_fuel(no_earlier_prefix, 41);
        reveal_with_fuel(word_prefix, 10);
    }
    assert(no_earlier_prefix(41, 41)) by {
        reveal_with_fuel(no_earlier_prefix, 42);
        reveal_with_fuel(word_prefix, 10);
    }
    assert(no_earlier_prefix(42, 42)) by {
        reveal_with_fuel(no_earlier_prefix, 43);
        reveal_with_fuel(word_prefix, 10);
    }
    assert(no_earlier_prefix(43, 43)) by {
        reveal_with_fuel(no_earlier_prefix, 44);
        reveal_with_fuel(word_prefix, 10);
    }
    assert(no_earlier_prefix(44, 44)) by {
        reveal_with_fuel(no_earlier_prefix, 45);
        reveal_with_fuel(word_prefix, 10);
    }
    assert(no_earlier_prefix(45, 45)) by {
        reveal_with_fuel(no_earlier_prefix, 46);
        reveal_with_fuel(word_prefix, 10);
    }
    assert(no_earlier_prefix(46, 46)) by {
        reveal_with_fuel(no_earlier_prefix, 47);
        reveal_with_fuel(word_prefix, 10);
    }
    assert(no_earlier_prefix(47, 47)) by {
        reveal_with_fuel(no_earlier_prefix, 48);
        reveal_with_fuel(word_prefix, 10);
    }
    assert(no_earlier_prefix(48, 48)) by {
        reveal_with_fuel(no_earlier_prefix, 49);
        reveal_with_fuel(word_prefix, 10);
    }
}

#[verifier::spinoff_prover]
#[verifier::rlimit(100)]
proof fn lemma_table_rows_4()
    ensures
        no_earlier_prefix(49, 49),
        no_earlier_prefix(50, 50),
        no_earlier_prefix(51, 51),
        no_earlier_prefix(52, 52),
        no_earlier_prefix(53, 53),
        no_earlier_prefix(54, 54),
        no_earlier_prefix(55, 55),
        no_earlier_prefix(56, 56),
        no_earlier_prefix(57, 57),
        no_earlier_prefix(58, 58),
        no_earlier_prefix(59, 59),
        no_earlier_prefix(60, 60),
{
    reveal_strlit("h200");
    reveal_strlit("h100 pcie");
    reveal_strlit("h100");
    reveal_strlit("a100 80");
    reveal_strlit("a100");
    reveal_strlit("l40s");
    reveal_strlit("l40");
    reveal_strlit("l4");
    reveal_strlit("a40");
    reveal_strlit("a30");
    reveal_strlit("a10g");
    reveal_strlit("a10");
    reveal_strlit("v100");
    reveal_strlit("t4");
    reveal_strlit("rtx 6000 ada");
    reveal_strlit("rtx a6000");
    reveal_strlit("rtx a5000");
    reveal_strlit("rtx a4000");
    reveal_strlit("5090");
    reveal_strlit("5080");
    reveal_strlit("5070 ti");
    reveal_strlit("5070");
    reveal_strlit("5060 ti");
    reveal_strlit("5060");
    reveal_strlit("4090 laptop");
    reveal_strlit("4080 laptop");
    reveal_strlit("4070 laptop");
    reveal_strlit("4060 laptop");
    reveal_strlit("4050 laptop");
    reveal_strlit("4090");
    reveal_strlit("4080 super");
    reveal_strlit("4080");
    reveal_strlit("4070 ti super");
    reveal_strlit("4070 ti");
    reveal_strlit("4070 super");
    reveal_strlit("4070");
    reveal_strlit("4060 ti");
    reveal_strlit("4060");
    reveal_strlit("3090 ti");
    reveal_strlit("3090");
    reveal_strlit("3080 ti");
    reveal_strlit("3080");
    reveal_strlit("3070 ti");
    reveal_strlit("3070");
    reveal_strlit("3060 ti");
    reveal_strlit("3060");
    reveal_strlit("3050");
    reveal_strlit("2080 ti");
    reveal_strlit("2080");
    reveal_strlit("2070");
    reveal_strlit("2060");
    reveal_strlit("1080 ti");
    reveal_strlit("1080");
    reveal_strlit("1070");
    reveal_strlit("1660");
    reveal_strlit("mi300x");
    reveal_strlit("mi250x");
    reveal_strlit("mi250");
    reveal_strlit("mi210");
    reveal_strlit("mi100");
    reveal_strlit("9070 xt");
    assert(no_earlier_prefix(49, 49)) by {
        reveal_with_fuel(no_earlier_prefix, 50);
        reveal_with_fuel(word_prefix, 10);
    }
    assert(no_earlier_prefix(50, 50)) by {
        reveal_with_fuel(no_earlier_prefix, 51);
        reveal_with_fuel(word_prefix, 10);
    }
    assert(no_earlier_prefix(51, 51)) by {
        reveal_with_fuel(no_earlier_prefix, 52);
        reveal_with_fuel(word_prefix, 10);
    }
    assert(no_earlier_prefix(52, 52)) by {
        reveal_with_fuel(no_earlier_prefix, 53);
        reveal_with_fuel(word_prefix, 10);
    }
    assert(no_earlier_prefix(53, 53)) by {
        reveal_with_fuel(no_earlier_prefix, 54);
        reveal_with_fuel(word_prefix, 10);
    }
    assert(no_earlier_prefix(54, 54)) by {
        reveal_with_fuel(no_earlier_prefix, 55);
        reveal_with_fuel(word_prefix, 10);
    }
    assert(no_earlier_prefix(55, 55)) by {
        reveal_with_fuel(no_earlier_prefix, 56);
        reveal_with_fuel(word_prefix, 10);
    }
    assert(no_earlier_prefix(56, 56)) by {
        reveal_with_fuel(no_earlier_prefix, 57);
        reveal_with_fuel(word_prefix, 10);
    }
    assert(no_earlier_prefix(57, 57)) by {
        reveal_with_fuel(no_earlier_prefix, 58);
        reveal_with_fuel(word_prefix, 10);
    }
    assert(no_earlier_prefix(58, 58)) by {
        reveal_with_fuel(no_earlier_prefix, 59);
        reveal_with_fuel(word_prefix, 10);
    }
    assert(no_earlier_prefix(59, 59)) by {
        reveal_with_fuel(no_earlier_prefix, 60);
        reveal_with_fuel(word_prefix, 10);
    }
    assert(no_earlier_prefix(60, 60)) by {
        reveal_with_fuel(no_earlier_prefix, 61);
        reveal_with_fuel(word_prefix, 10);
    }
}

#[verifier::spinoff_prover]
#[verifier::rlimit(100)]
proof fn lemma_table_rows_5()
    ensures
        no_earlier_prefix(61, 61),
        no_earlier_prefix(62, 62),
        no_earlier_prefix(63, 63),
        no_earlier_prefix(64, 64),
        no_earlier_prefix(65, 65),
        no_earlier_prefix(66, 66),
        no_earlier_prefix(67, 67),
        no_earlier_prefix(68, 68),
        no_earlier_prefix(69, 69),
        no_earlier_prefix(70, 70),
        no_earlier_prefix(71, 71),
        no_earlier_prefix(72, 72),
{
    reveal_strlit("h200");
    reveal_strlit("h100 pcie");
    reveal_strlit("h100");
    reveal_strlit("a100 80");
    reveal_strlit("a100");
    reveal_strlit("l40s");
    reveal_strlit("l40");
    reveal_strlit("l4");
    reveal_strlit("a40");
    reveal_strlit("a30");
    reveal_strlit("a10g");
    reveal_strlit("a10");
    reveal_strlit("v100");
    reveal_strlit("t4");
    reveal_strlit("rtx 6000 ada");
    reveal_strlit("rtx a6000");
    reveal_strlit("rtx a5000");
    reveal_strlit("rtx a4000");
    reveal_strlit("5090");
    reveal_strlit("5080");
    reveal_strlit("5070 ti");
    reveal_strlit("5070");
    reveal_strlit("5060 ti");
    reveal_strlit("5060");
    reveal_strlit("4090 laptop");
    reveal_strlit("4080 laptop");
    reveal_strlit("4070 laptop");
    reveal_strlit("4060 laptop");
    reveal_strlit("4050 laptop");
    reveal_strlit("4090");
    reveal_strlit("4080 super");
    reveal_strlit("4080");
    reveal_strlit("4070 ti super");
    reveal_strlit("4070 ti");
    reveal_strlit("4070 super");
    reveal_strlit("4070");
    reveal_strlit("4060 ti");
    reveal_strlit("4060");
    reveal_strlit("3090 ti");
    reveal_strlit("3090");
    reveal_strlit("3080 ti");
    reveal_strlit("3080");
    reveal_strlit("3070 ti");
    reveal_strlit("3070");
    reveal_strlit("3060 ti");
    reveal_strlit("3060");
    reveal_strlit("3050");
    reveal_strlit("2080 ti");
    reveal_strlit("2080");
    reveal_strlit("2070");
    reveal_strlit("2060");
    reveal_strlit("1080 ti");
    reveal_strlit("1080");
    reveal_strlit("1070");
    reveal_strlit("1660");
    reveal_strlit("mi300x");
    reveal_strlit("mi250x");
    reveal_strlit("mi250");
    reveal_strlit("mi210");
    reveal_strlit("mi100");
    reveal_strlit("9070 xt");
    reveal_strlit("9070");
    reveal_strlit("7900 xtx");
    reveal_strlit("7900 xt");
    reveal_strlit("7800 xt");
    reveal_strlit("7700 xt");
    reveal_strlit("7600");
    reveal_strlit("6950 xt");
    reveal_strlit("6900 xt");
    reveal_strlit("6800 xt");
    reveal_strlit("6700 xt");
    reveal_strlit("6600");
    reveal_strlit("arc b580");
    assert(no_earlier_prefix(61, 61)) by {
        reveal_with_fuel(no_earlier_prefix, 62);
        reveal_with_fuel(word_prefix, 10);
    }
    assert(no_earlier_prefix(62, 62)) by {
        reveal_with_fuel(no_earlier_prefix, 63);
        reveal_with_fuel(word_prefix, 10);
    }
    assert(no_earlier_prefix(63, 63)) by {
        reveal_with_fuel(no_earlier_prefix, 64);
        reveal_with_fuel(word_prefix, 10);
    }
    assert(no_earlier_prefix(64, 64)) by {
        reveal_with_fuel(no_earlier_prefix, 65);
        reveal_with_fuel(word_prefix, 10);
    }
    assert(no_earlier_prefix(65, 65)) by {
        reveal_with_fuel(no_earlier_prefix, 66);
        reveal_with_fuel(word_prefix, 10);
    }
    assert(no_earlier_prefix(66, 66)) by {
        reveal_with_fuel(no_earlier_prefix, 67);
        reveal_with_fuel(word_prefix, 10);
    }
    assert(no_earlier_prefix(67, 67)) by {
        reveal_with_fuel(no_earlier_prefix, 68);
        reveal_with_fuel(word_prefix, 10);
    }
    assert(no_earlier_prefix(68, 68)) by {
        reveal_with_fuel(no_earlier_prefix, 69);
        reveal_with_fuel(word_prefix, 10);
    }
    assert(no_earlier_prefix(69, 69)) by {
        reveal_with_fuel(no_earlier_prefix, 70);
        reveal_with_fuel(word_prefix, 10);
    }
    assert(no_earlier_prefix(70, 70)) by {
        reveal_with_fuel(no_earlier_prefix, 71);
        reveal_with_fuel(word_prefix, 10);
    }
    assert(no_earlier_prefix(71, 71)) by {
        reveal_with_fuel(no_earlier_prefix, 72);
        reveal_with_fuel(word_prefix, 10);
    }
    assert(no_earlier_prefix(72, 72)) by {
        reveal_with_fuel(no_earlier_prefix, 73);
        reveal_with_fuel(word_prefix, 10);
    }
}

#[verifier::spinoff_prover]
#[verifier::rlimit(100)]
proof fn lemma_table_rows_6()
    ensures
        no_earlier_prefix(73, 73),
        no_earlier_prefix(74, 74),
        no_earlier_prefix(75, 75),
        no_earlier_prefix(76, 76),
        no_earlier_prefix(77, 77),
        no_earlier_prefix(78, 78),
        no_earlier_prefix(79, 79),
        no_earlier_prefix(80, 80),
        no_earlier_prefix(81, 81),
        no_earlier_prefix(82, 82),
        no_earlier_prefix(83, 83),
        no_earlier_prefix(84, 84),
{
    reveal_strlit("h200");
    reveal_strlit("h100 pcie");
    reveal_strlit("h100");
    reveal_strlit("a100 80");
    reveal_strlit("a100");
    reveal_strlit("l40s");
    reveal_strlit("l40");
    reveal_strlit("l4");
    reveal_strlit("a40");
    reveal_strlit("a30");
    reveal_strlit("a10g");
    reveal_strlit("a10");
    reveal_strlit("v100");
    reveal_strlit("t4");
    reveal_strlit("rtx 6000 ada");
    reveal_strlit("rtx a6000");
    reveal_strlit("rtx a5000");
    reveal_strlit("rtx a4000");
    reveal_strlit("5090");
    reveal_strlit("5080");
    reveal_strlit("5070 ti");
    reveal_strlit("5070");
    reveal_strlit("5060 ti");
    reveal_strlit("5060");
    reveal_strlit("4090 laptop");
    reveal_strlit("4080 laptop");
    reveal_strlit("4070 laptop");
    reveal_strlit("4060 laptop");
    reveal_strlit("4050 laptop");
    reveal_strlit("4090");
    reveal_strlit("4080 super");
    reveal_strlit("4080");
    reveal_strlit("4070 ti super");
    reveal_strlit("4070 ti");
    reveal_strlit("4070 super");
    reveal_strlit("4070");
    reveal_strlit("4060 ti");
    reveal_strlit("4060");
    reveal_strlit("3090 ti");
    reveal_strlit("3090");
    reveal_strlit("3080 ti");
    reveal_strlit("3080");
    reveal_strlit("3070 ti");
    reveal_strlit("3070");
    reveal_strlit("3060 ti");
    reveal_strlit("3060");
    reveal_strlit("3050");
    reveal_strlit("2080 ti");
    reveal_strlit("2080");
    reveal_strlit("2070");
    reveal_strlit("2060");
    reveal_strlit("1080 ti");
    reveal_strlit("1080");
    reveal_strlit("1070");
    reveal_strlit("1660");
    reveal_strlit("mi300x");
    reveal_strlit("mi250x");
    reveal_strlit("mi250");
    reveal_strlit("mi210");
    reveal_strlit("mi100");
    reveal_strlit("9070 xt");
    reveal_strlit("9070");
    reveal_strlit("7900 xtx");
    reveal_strlit("7900 xt");
    reveal_strlit("7800 xt");
    reveal_strlit("7700 xt");
    reveal_strlit("7600");
    reveal_strlit("6950 xt");
    reveal_strlit("6900 xt");
    reveal_strlit("6800 xt");
    reveal_strlit("6700 xt");
    reveal_strlit("6600");
    reveal_strlit("arc b580");
    reveal_strlit("arc a770");
    reveal_strlit("arc a750");
    reveal_strlit("arc a380");
    reveal_strlit("arc a580");
    reveal_strlit("arc b570");
    reveal_strlit("m4 max");
    reveal_strlit("m4 pro");
    reveal_strlit("m4");
    reveal_strlit("m3 ultra");
    reveal_strlit("m3 max");
    reveal_strlit("m3 pro");
    reveal_strlit("m3");
    assert(no_earlier_prefix(73, 73)) by {
        reveal_with_fuel(no_earlier_prefix, 74);
        reveal_with_fuel(word_prefix, 10);
    }
    assert(no_earlier_prefix(74, 74)) by {
        reveal_with_fuel(no_earlier_prefix, 75);
        reveal_with_fuel(word_prefix, 10);
    }
    assert(no_earlier_prefix(75, 75)) by {
        reveal_with_fuel(no_earlier_prefix, 76);
        reveal_with_fuel(word_prefix, 10);
    }
    assert(no_earlier_prefix(76, 76)) by {
        reveal_with_fuel(no_earlier_prefix, 77);
        reveal_with_fuel(word_prefix, 10);
    }
    assert(no_earlier_prefix(77, 77)) by {
        reveal_with_fuel(no_earlier_prefix, 78);
        reveal_with_fuel(word_prefix, 10);
    }
    assert(no_earlier_prefix(78, 78)) by {
        reveal_with_fuel(no_earlier_prefix, 79);
        reveal_with_fuel(word_prefix, 10);
    }
    assert(no_earlier_prefix(79, 79)) by {
        reveal_with_fuel(no_earlier_prefix, 80);
        reveal_with_fuel(word_prefix, 10);
    }
    assert(no_earlier_prefix(80, 80)) by {
        reveal_with_fuel(no_earlier_prefix, 81);
        reveal_with_fuel(word_prefix, 10);
    }
    assert(no_earlier_prefix(81, 81)) by {
        reveal_with_fuel(no_earlier_prefix, 82);
        reveal_with_fuel(word_prefix, 10);
    }
    assert(no_earlier_prefix(82, 82)) by {
        reveal_with_fuel(no_earlier_prefix, 83);
        reveal_with_fuel(word_prefix, 10);
    }
    assert(no_earlier_prefix(83, 83)) by {
        reveal_with_fuel(no_earlier_prefix, 84);
        reveal_with_fuel(word_prefix, 10);
    }
    assert(no_earlier_prefix(84, 84)) by {
        reveal_with_fuel(no_earlier_prefix, 85);
        reveal_with_fuel(word_prefix, 10);
    }
}

#[verifier::spinoff_prover]
#[verifier::rlimit(100)]
proof fn lemma_table_rows_7()
    ensures
        no_earlier_prefix(85, 85),
        no_earlier_prefix(86, 86),
        no_earlier_prefix(87, 87),
        no_earlier_prefix(88, 88),
        no_earlier_prefix(89, 89),
        no_earlier_prefix(90, 90),
        no_earlier_prefix(91, 91),
        no_earlier_prefix(92, 92),
{
    reveal_strlit("h200");
    reveal_strlit("h100 pcie");
    reveal_strlit("h100");
    reveal_strlit("a100 80");
    reveal_strlit("a100");
    reveal_strlit("l40s");
    reveal_strlit("l40");
    reveal_strlit("l4");
    reveal_strlit("a40");
    reveal_strlit("a30");
    reveal_strlit("a10g");
    reveal_strlit("a10");
    reveal_strlit("v100");
    reveal_strlit("t4");
    reveal_strlit("rtx 6000 ada");
    reveal_strlit("rtx a6000");
    reveal_strlit("rtx a5000");
    reveal_strlit("rtx a4000");
    reveal_strlit("5090");
    reveal_strlit("5080");
    reveal_strlit("5070 ti");
    reveal_strlit("5070");
    reveal_strlit("5060 ti");
    reveal_strlit("5060");
    reveal_strlit("4090 laptop");
    reveal_strlit("4080 laptop");
    reveal_strlit("4070 laptop");
    reveal_strlit("4060 laptop");
    reveal_strlit("4050 laptop");
    reveal_strlit("4090");
    reveal_strlit("4080 super");
    reveal_strlit("4080");
    reveal_strlit("4070 ti super");
    reveal_strlit("4070 ti");
    reveal_strlit("4070 super");
    reveal_strlit("4070");
    reveal_strlit("4060 ti");
    reveal_strlit("4060");
    reveal_strlit("3090 ti");
    reveal_strlit("3090");
    reveal_strlit("3080 ti");
    reveal_strlit("3080");
    reveal_strlit("3070 ti");
    reveal_strlit("3070");
    reveal_strlit("3060 ti");
    reveal_strlit("3060");
    reveal_strlit("3050");
    reveal_strlit("2080 ti");
    reveal_strlit("2080");
    reveal_strlit("2070");
    reveal_strlit("2060");
    reveal_strlit("1080 ti");
    reveal_strlit("1080");
    reveal_strlit("1070");
    reveal_strlit("1660");
    reveal_strlit("mi300x");
    reveal_strlit("mi250x");
    reveal_strlit("mi250");
    reveal_strlit("mi210");
    reveal_strlit("mi100");
    reveal_strlit("9070 xt");
    reveal_strlit("9070");
    reveal_strlit("7900 xtx");
    reveal_strlit("7900 xt");
    reveal_strlit("7800 xt");
    reveal_strlit("7700 xt");
    reveal_strlit("7600");
    reveal_strlit("6950 xt");
    reveal_strlit("6900 xt");
    reveal_strlit("6800 xt");
    reveal_strlit("6700 xt");
    reveal_strlit("6600");
    reveal_strlit("arc b580");
    reveal_strlit("arc a770");
    reveal_strlit("arc a750");
    reveal_strlit("arc a380");
    reveal_strlit("arc a580");
    reveal_strlit("arc b570");
    reveal_strlit("m4 max");
    reveal_strlit("m4 pro");
    reveal_strlit("m4");
    reveal_strlit("m3 ultra");
    reveal_strlit("m3 max");
    reveal_strlit("m3 pro");
    reveal_strlit("m3");
    reveal_strlit("m2 ultra");
    reveal_strlit("m2 max");
    reveal_strlit("m2 pro");
    reveal_strlit("m2");
    reveal_strlit("m1 ultra");
    reveal_strlit("m1 max");
    reveal_strlit("m1 pro");
    reveal_strlit("m1");
    assert(no_earlier_prefix(85, 85)) by {
        reveal_with_fuel(no_earlier_prefix, 86);
        reveal_with_fuel(word_prefix, 10);
    }
    assert(no_earlier_prefix(86, 86)) by {
        reveal_with_fuel(no_earlier_prefix, 87);
        reveal_with_fuel(word_prefix, 10);
    }
    assert(no_earlier_prefix(87, 87)) by {
        reveal_with_fuel(no_earlier_prefix, 88);
        reveal_with_fuel(word_prefix, 10);
    }
    assert(no_earlier_prefix(88, 88)) by {
        reveal_with_fuel(no_earlier_prefix, 89);
        reveal_with_fuel(word_prefix, 10);
    }
    assert(no_earlier_prefix(89, 89)) by {
        reveal_with_fuel(no_earlier_prefix, 90);
        reveal_with_fuel(word_prefix, 10);
    }
    assert(no_earlier_prefix(90, 90)) by {
        reveal_with_fuel(no_earlier_prefix, 91);
        reveal_with_fuel(word_prefix, 10);
    }
    assert(no_earlier_prefix(91, 91)) by {
        reveal_with_fuel(no_earlier_prefix, 92);
        reveal_with_fuel(word_prefix, 10);
    }
    assert(no_earlier_prefix(92, 92)) by {
        reveal_with_fuel(no_earlier_prefix, 93);
        reveal_with_fuel(word_prefix, 10);
    }
}

proof fn lemma_table_prefixes_ordered()
    ensures
        prefixes_ordered(93),
{
    lemma_table_rows_0();
    lemma_table_rows_1();
    lemma_table_rows_2();
    lemma_table_rows_3();
    lemma_table_rows_4();
    lemma_table_rows_5();
    lemma_table_rows_6();
    lemma_table_rows_7();
    assert(prefixes_ordered(0));
    assert(no_earlier_prefix(0, 0));
    assert(prefixes_ordered(1));
    assert(prefixes_ordered(2));
    assert(prefixes_ordered(3));
    assert(prefixes_ordered(4));
    assert(prefixes_ordered(5));
    assert(prefixes_ordered(6));
    assert(prefixes_ordered(7));
    assert(prefixes_ordered(8));
    assert(prefixes_ordered(9));
    assert(prefixes_ordered(10));
    assert(prefixes_ordered(11));
    assert(prefixes_ordered(12));
    assert(prefixes_ordered(13));
    assert(prefixes_ordered(14));
    assert(prefixes_ordered(15));
    assert(prefixes_ordered(16));
    assert(prefixes_ordered(17));
    assert(prefixes_ordered(18));
    assert(prefixes_ordered(19));
    assert(prefixes_ordered(20));
    assert(prefixes_ordered(21));
    assert(prefixes_ordered(22));
    assert(prefixes_ordered(23));
    assert(prefixes_ordered(24));
    assert(prefixes_ordered(25));
    assert(prefixes_ordered(26));
    assert(prefixes_ordered(27));
    assert(prefixes_ordered(28));
    assert(prefixes_ordered(29));
    assert(prefixes_ordered(30));
    assert(prefixes_ordered(31));
    assert(prefixes_ordered(32));
    assert(prefixes_ordered(33));
    assert(prefixes_ordered(34));
    assert(prefixes_ordered(35));
    assert(prefixes_ordered(36));
    assert(prefixes_ordered(37));
    assert(prefixes_ordered(38));
    assert(prefixes_ordered(39));
    assert(prefixes_ordered(40));
    assert(prefixes_ordered(41));
    assert(prefixes_ordered(42));
    assert(prefixes_ordered(43));
    assert(prefixes_ordered(44));
    assert(prefixes_ordered(45));
    assert(prefixes_ordered(46));
    assert(prefixes_ordered(47));
    assert(prefixes_ordered(48));
    assert(prefixes_ordered(49));
    assert(prefixes_ordered(50));
    assert(prefixes_ordered(51));
    assert(prefixes_ordered(52));
    assert(prefixes_ordered(53));
    assert(prefixes_ordered(54));
    assert(prefixes_ordered(55));
    assert(prefixes_ordered(56));
    assert(prefixes_ordered(57));
    assert(prefixes_ordered(58));
    assert(prefixes_ordered(59));
    assert(prefixes_ordered(60));
    assert(prefixes_ordered(61));
    assert(prefixes_ordered(62));
    assert(prefixes_ordered(63));
    assert(prefixes_ordered(64));
    assert(prefixes_ordered(65));
    assert(prefixes_ordered(66));
    assert(prefixes_ordered(67));
    assert(prefixes_ordered(68));
    assert(prefixes_ordered(69));
    assert(prefixes_ordered(70));
    assert(prefixes_ordered(71));
    assert(prefixes_ordered(72));
    assert(prefixes_ordered(73));
    assert(prefixes_ordered(74));
    assert(prefixes_ordered(75));
    assert(prefixes_ordered(76));
    assert(prefixes_ordered(77));
    assert(prefixes_ordered(78));
    assert(prefixes_ordered(79));
    assert(prefixes_ordered(80));
    assert(prefixes_ordered(81));
    assert(prefixes_ordered(82));
    assert(prefixes_ordered(83));
    assert(prefixes_ordered(84));
    assert(prefixes_ordered(85));
    assert(prefixes_ordered(86));
    assert(prefixes_ordered(87));
    assert(prefixes_ordered(88));
    assert(prefixes_ordered(89));
    assert(prefixes_ordered(90));
    assert(prefixes_ordered(91));
    assert(prefixes_ordered(92));
    assert(prefixes_ordered(93));
}

/// No fragment of the reference table is the start of a later one, word for
/// word: a card named by more words ("5070 ti") comes before the card named
/// by fewer ("5070"), so the first match is the most specific one.
pub proof fn lemma_specific_fragments_come_first(i: int, j: int)
    requires
        0 <= i < j < gpu_specs().len(),
    ensures
        !word_prefix(gpu_specs()[i].0, gpu_specs()[j].0),
{
    assert(gpu_specs().len() == 93);
    lemma_table_prefixes_ordered();
    lemma_prefixes_ordered(93, j);
    lemma_no_earlier_prefix(j, j as nat, i);
}

} // verus!
