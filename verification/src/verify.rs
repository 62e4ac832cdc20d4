//! Structural verification of model files.
//!
//! The question answered here is whether a file is what it claims to be and
//! whether all of it is present: a download that stopped short, or a header
//! that disagrees with the data it describes. Every count and length in these
//! formats comes from the file, so each one is checked against the bytes that
//! exist before anything is sized from it.
//!
//! The readers work on the opening bytes of a file (`head`) together with the
//! file's real size (`len`). A read that runs past `len` is the file being too
//! short; a read that stays inside `len` but past `head` is a read that could
//! not be served, which the caller reports the way it would an I/O failure.

use vstd::prelude::*;
use vstd::bytes::{
    spec_u16_from_le_bytes, spec_u32_from_le_bytes, spec_u64_from_le_bytes, u16_from_le_bytes,
    u32_from_le_bytes, u64_from_le_bytes,
};
use vstd::utf8::{valid_utf8, decode_utf8};
use crate::text::{dec, digit_char, dec_string, push_char, chars_of, eq_str, parse_u64, parse_nat};
use crate::json::{Json, JsonView, as_u64, json_of, json_result, json_view, member, text_member, lemma_member_views, lemma_views, member_views, views};

verus! {

/// The largest header string or JSON header worth reading.
pub const MAX_HEADER_BYTES: u64 = 268435456;

/// Smallest on-disk size of one GGUF tensor descriptor: an empty name, no
/// dimensions, the type and the offset.
pub const MIN_TENSOR_INFO_BYTES: u64 = 24;

/// Smallest on-disk size of one GGUF metadata entry: an empty key and a type tag.
pub const MIN_METADATA_BYTES: u64 = 12;

#[derive(Debug, Clone, Copy, PartialEq, Eq, Structural)]
pub enum Format {
    Gguf,
    Safetensors,
}

pub open spec fn format_label(f: Format) -> Seq<char> {
    match f {
        Format::Gguf => "GGUF"@,
        Format::Safetensors => "safetensors"@,
    }
}

impl Format {
    pub fn label(self) -> (r: &'static str)
        ensures
            r@ == format_label(self),
    {
        match self {
            Format::Gguf => "GGUF",
            Format::Safetensors => "safetensors",
        }
    }
}

#[derive(Debug, Clone, Copy, PartialEq, Eq, PartialOrd, Ord, Structural)]
pub enum Level {
    Note,
    Warning,
    Error,
}

pub open spec fn level_label(l: Level) -> Seq<char> {
    match l {
        Level::Note => "note"@,
        Level::Warning => "warning"@,
        Level::Error => "error"@,
    }
}

impl Level {
    pub fn label(self) -> (r: &'static str)
        ensures
            r@ == level_label(self),
    {
        match self {
            Level::Note => "note",
            Level::Warning => "warning",
            Level::Error => "error",
        }
    }
}

/// One thing a verification found, with its severity.
#[derive(Debug, Clone)]
pub struct Finding {
    pub level: Level,
    pub message: String,
}

/// An element type and how many tensors use it.
#[derive(Debug, Clone)]
pub struct TypeCount {
    pub name: String,
    pub tensors: usize,
}

/// What a verification found out about one file.
#[derive(Debug, Clone)]
pub struct Report {
    pub path: String,
    pub format: Format,
    pub file_size: u64,
    pub version: Option<u32>,
    pub tensor_count: u64,
    pub metadata_count: u64,
    pub architecture: Option<String>,
    pub name: Option<String>,
    pub context_length: Option<u64>,
    /// Summed from the tensor shapes rather than read from metadata.
    pub parameters: u64,
    /// Element types and how many tensors use each, most used first.
    pub tensor_types: Vec<TypeCount>,
    /// Bytes the tensor data occupies according to the header.
    pub data_bytes: u64,
    pub findings: Vec<Finding>,
}

/// A finding as the contracts see it: its level and its text.
pub open spec fn finding_view(f: Finding) -> (Level, Seq<char>) {
    (f.level, f.message@)
}

pub open spec fn findings_view(fs: Seq<Finding>) -> Seq<(Level, Seq<char>)> {
    fs.map_values(|f: Finding| finding_view(f))
}

pub open spec fn has_error(fs: Seq<(Level, Seq<char>)>) -> bool {
    exists|i: int| 0 <= i < fs.len() && (#[trigger] fs[i]).0 == Level::Error
}

impl Report {
    /// True when nothing structural is wrong; warnings and notes do not count.
    pub fn is_intact(&self) -> (r: bool)
        ensures
            r == !has_error(findings_view(self.findings@)),
    {
        let mut i: usize = 0;
        while i < self.findings.len()
            invariant
                i <= self.findings.len(),
                forall|j: int| 0 <= j < i ==> (#[trigger] self.findings@[j]).level != Level::Error,
            decreases self.findings.len() - i,
        {
            if self.findings[i].level == Level::Error {
                assert(findings_view(self.findings@)[i as int].0 == Level::Error);
                return false;
            }
            i = i + 1;
        }
        proof {
            let fv = findings_view(self.findings@);
            assert forall|j: int| 0 <= j < fv.len() implies (#[trigger] fv[j]).0 != Level::Error by {
                assert(fv[j] == finding_view(self.findings@[j]));
            }
        }
        true
    }

    pub(crate) fn add(&mut self, level: Level, message: String)
        ensures
            findings_view(final(self).findings@) == findings_view(old(self).findings@).push(
                (level, message@),
            ),
            final(self).path == old(self).path,
            final(self).format == old(self).format,
            final(self).file_size == old(self).file_size,
            final(self).version == old(self).version,
            final(self).tensor_count == old(self).tensor_count,
            final(self).metadata_count == old(self).metadata_count,
            final(self).architecture == old(self).architecture,
            final(self).name == old(self).name,
            final(self).context_length == old(self).context_length,
            final(self).parameters == old(self).parameters,
            final(self).tensor_types == old(self).tensor_types,
            final(self).data_bytes == old(self).data_bytes,
    {
        self.findings.push(Finding { level, message });
        assert(findings_view(self.findings@) =~= findings_view(old(self).findings@).push(
            (level, message@),
        ));
    }
}

// ---------------------------------------------------------------------------
// Human-readable sizes
// ---------------------------------------------------------------------------

pub open spec fn pow1024(u: nat) -> nat
    decreases u,
{
    if u == 0 {
        1
    } else {
        1024 * pow1024((u - 1) as nat)
    }
}

/// The unit a size is shown in: the largest of B, KB, MB, GB, TB that the
/// size reaches.
pub open spec fn human_unit(b: nat) -> nat {
    if b >= pow1024(4) {
        4
    } else if b >= pow1024(3) {
        3
    } else if b >= pow1024(2) {
        2
    } else if b >= pow1024(1) {
        1
    } else {
        0
    }
}

pub open spec fn unit_name(u: nat) -> Seq<char> {
    if u == 0 {
        "B"@
    } else if u == 1 {
        "KB"@
    } else if u == 2 {
        "MB"@
    } else if u == 3 {
        "GB"@
    } else {
        "TB"@
    }
}

/// `b / d` in tenths, rounded to the nearest tenth with ties to even.
pub open spec fn rounded_tenths(b: nat, d: nat) -> nat {
    let q = (b * 10) / d;
    let r = (b * 10) % d;
    if 2 * r > d || (2 * r == d && q % 2 == 1) {
        q + 1
    } else {
        q
    }
}

/// A byte count in the largest unit it reaches, with one decimal place
/// (plain bytes get none).
pub open spec fn human_text(b: nat) -> Seq<char> {
    let u = human_unit(b);
    if u == 0 {
        dec(b) + " B"@
    } else {
        let t = rounded_tenths(b, pow1024(u));
        dec(t / 10) + seq!['.', digit_char(t % 10), ' '] + unit_name(u)
    }
}

proof fn lemma_pow1024_values()
    ensures
        pow1024(1) == 1024,
        pow1024(2) == 1048576,
        pow1024(3) == 1073741824,
        pow1024(4) == 1099511627776,
{
    reveal_with_fuel(pow1024, 5);
}

fn unit_str(u: u64) -> (r: &'static str)
    requires
        1 <= u <= 4,
    ensures
        r@ == unit_name(u as nat),
{
    if u == 1 {
        "KB"
    } else if u == 2 {
        "MB"
    } else if u == 3 {
        "GB"
    } else {
        "TB"
    }
}

/// A byte count as a person would read it: `512 B`, `1.5 KB`, `4.0 GB`.
pub fn human(bytes: u64) -> (s: String)
    ensures
        s@ == human_text(bytes as nat),
{
    proof {
        lemma_pow1024_values();
    }
    let mut unit: u64 = 0;
    let mut div: u64 = 1;
    while unit < 4 && bytes / 1024 >= div
        invariant
            unit <= 4,
            div as nat == pow1024(unit as nat),
            unit > 0 ==> bytes >= div,
            pow1024(1) == 1024,
            pow1024(2) == 1048576,
            pow1024(3) == 1073741824,
            pow1024(4) == 1099511627776,
            forall|u: nat| 1 <= u <= unit ==> bytes >= #[trigger] pow1024(u),
        decreases 4 - unit,
    {
        proof {
            assert(bytes >= div * 1024) by (nonlinear_arith)
                requires
                    bytes / 1024 >= div,
            ;
        }
        div = div * 1024;
        unit = unit + 1;
        proof {
            assert forall|u: nat| 1 <= u <= unit implies bytes >= #[trigger] pow1024(u) by {
                if u == unit {
                } else {
                }
            }
        }
    }
    proof {
        if unit < 4 {
            assert(bytes < div * 1024) by (nonlinear_arith)
                requires
                    bytes / 1024 < div,
                    div > 0,
            ;
            assert(pow1024(unit as nat + 1) == div * 1024);
        }
        assert(human_unit(bytes as nat) == unit as nat);
    }
    if unit == 0 {
        let mut s = dec_string(bytes);
        s.append(" B");
        return s;
    }
    let scaled: u128 = (bytes as u128) * 10;
    let q: u128 = scaled / (div as u128);
    let r: u128 = scaled % (div as u128);
    let t: u128 = if 2 * r > div as u128 || (2 * r == div as u128 && q % 2 == 1) {
        q + 1
    } else {
        q
    };
    proof {
        assert(t == rounded_tenths(bytes as nat, div as nat));
        assert(q <= scaled) by (nonlinear_arith)
            requires
                q == scaled / (div as u128),
                div >= 1,
        ;
    }
    let whole: u64 = (t / 10) as u64;
    let tenth: u8 = (t % 10) as u8;
    proof {
        assert((tenth + 48) as char == digit_char((t % 10) as nat));
    }
    let mut out = dec_string(whole);
    push_char(&mut out, '.');
    push_char(&mut out, (tenth + 48) as char);
    push_char(&mut out, ' ');
    out.append(unit_str(unit));
    assert(out@ =~= human_text(bytes as nat));
    out
}

// ---------------------------------------------------------------------------
// Element types
// ---------------------------------------------------------------------------

/// Bytes per element of a safetensors dtype.
pub open spec fn dtype_width(d: Seq<char>) -> Option<nat> {
    if d == "F64"@ || d == "I64"@ || d == "U64"@ {
        Some(8)
    } else if d == "F32"@ || d == "I32"@ || d == "U32"@ {
        Some(4)
    } else if d == "F16"@ || d == "BF16"@ || d == "I16"@ || d == "U16"@ {
        Some(2)
    } else if d == "F8_E4M3"@ || d == "F8_E5M2"@ || d == "I8"@ || d == "U8"@ || d == "BOOL"@ {
        Some(1)
    } else {
        None
    }
}

/// Bytes per element of a safetensors dtype, or `None` for one this build
/// does not know.
pub fn dtype_size(dtype: &str) -> (r: Option<u64>)
    ensures
        r matches Some(w) ==> dtype_width(dtype@) == Some(w as nat),
        r is None ==> dtype_width(dtype@) is None,
{
    let d = chars_of(dtype);
    if eq_str(&d, "F64") || eq_str(&d, "I64") || eq_str(&d, "U64") {
        Some(8)
    } else if eq_str(&d, "F32") || eq_str(&d, "I32") || eq_str(&d, "U32") {
        Some(4)
    } else if eq_str(&d, "F16") || eq_str(&d, "BF16") || eq_str(&d, "I16") || eq_str(&d, "U16") {
        Some(2)
    } else if eq_str(&d, "F8_E4M3") || eq_str(&d, "F8_E5M2") || eq_str(&d, "I8") || eq_str(
        &d,
        "U8",
    ) || eq_str(&d, "BOOL") {
        Some(1)
    } else {
        None
    }
}

/// A ggml element type: its name, how many elements share one block, and
/// the bytes one block takes.
pub struct GgmlType {
    pub name: &'static str,
    pub block: u64,
    pub size: u64,
}

/// The ggml element type table, by type id.
pub open spec fn ggml_type(id: u32) -> Option<(Seq<char>, nat, nat)> {
    if id == 0 {
        Some(("F32"@, 1, 4))
    } else if id == 1 {
        Some(("F16"@, 1, 2))
    } else if id == 2 {
        Some(("Q4_0"@, 32, 18))
    } else if id == 3 {
        Some(("Q4_1"@, 32, 20))
    } else if id == 6 {
        Some(("Q5_0"@, 32, 22))
    } else if id == 7 {
        Some(("Q5_1"@, 32, 24))
    } else if id == 8 {
        Some(("Q8_0"@, 32, 34))
    } else if id == 9 {
        Some(("Q8_1"@, 32, 40))
    } else if id == 10 {
        Some(("Q2_K"@, 256, 84))
    } else if id == 11 {
        Some(("Q3_K"@, 256, 110))
    } else if id == 12 {
        Some(("Q4_K"@, 256, 144))
    } else if id == 13 {
        Some(("Q5_K"@, 256, 176))
    } else if id == 14 {
        Some(("Q6_K"@, 256, 210))
    } else if id == 15 {
        Some(("Q8_K"@, 256, 292))
    } else if id == 16 {
        Some(("IQ2_XXS"@, 256, 66))
    } else if id == 17 {
        Some(("IQ2_XS"@, 256, 74))
    } else if id == 18 {
        Some(("IQ3_XXS"@, 256, 98))
    } else if id == 19 {
        Some(("IQ1_S"@, 256, 50))
    } else if id == 20 {
        Some(("IQ4_NL"@, 32, 18))
    } else if id == 21 {
        Some(("IQ3_S"@, 256, 110))
    } else if id == 22 {
        Some(("IQ2_S"@, 256, 82))
    } else if id == 23 {
        Some(("IQ4_XS"@, 256, 136))
    } else if id == 24 {
        Some(("I8"@, 1, 1))
    } else if id == 25 {
        Some(("I16"@, 1, 2))
    } else if id == 26 {
        Some(("I32"@, 1, 4))
    } else if id == 27 {
        Some(("I64"@, 1, 8))
    } else if id == 28 {
        Some(("F64"@, 1, 8))
    } else if id == 29 {
        Some(("IQ1_M"@, 256, 56))
    } else if id == 30 {
        Some(("BF16"@, 1, 2))
    } else {
        None
    }
}

/// The byte sizes of a field list.
pub open spec fn field_bytes(fields: Seq<nat>) -> nat
    decreases fields.len(),
{
    if fields.len() == 0 {
        0
    } else {
        field_bytes(fields.drop_last()) + fields.last()
    }
}

/// ggml's element types by their enum value, each with the number of
/// elements a block holds and the byte size of each field of the block's
/// struct, in declaration order (half floats take two bytes).
pub open spec fn ggml_block_layout(id: u32) -> Option<(Seq<char>, nat, Seq<nat>)> {
    if id == 0 {
        // value: f32
        Some(("F32"@, 1nat, seq![4nat]))
    } else if id == 1 {
        // value: f16
        Some(("F16"@, 1nat, seq![2nat]))
    } else if id == 2 {
        // d: f16, qs: 16 x u8
        Some(("Q4_0"@, 32nat, seq![2nat, 16nat]))
    } else if id == 3 {
        // d: f16, m: f16, qs: 16 x u8
        Some(("Q4_1"@, 32nat, seq![2nat, 2nat, 16nat]))
    } else if id == 6 {
        // d: f16, qh: 4 x u8, qs: 16 x u8
        Some(("Q5_0"@, 32nat, seq![2nat, 4nat, 16nat]))
    } else if id == 7 {
        // d: f16, m: f16, qh: 4 x u8, qs: 16 x u8
        Some(("Q5_1"@, 32nat, seq![2nat, 2nat, 4nat, 16nat]))
    } else if id == 8 {
        // d: f16, qs: 32 x i8
        Some(("Q8_0"@, 32nat, seq![2nat, 32nat]))
    } else if id == 9 {
        // d: f32, s: f32, qs: 32 x i8
        Some(("Q8_1"@, 32nat, seq![4nat, 4nat, 32nat]))
    } else if id == 10 {
        // scales: 16 x u8, qs: 64 x u8, d: f16, dmin: f16
        Some(("Q2_K"@, 256nat, seq![16nat, 64nat, 2nat, 2nat]))
    } else if id == 11 {
        // hmask: 32 x u8, qs: 64 x u8, scales: 12 x u8, d: f16
        Some(("Q3_K"@, 256nat, seq![32nat, 64nat, 12nat, 2nat]))
    } else if id == 12 {
        // d: f16, dmin: f16, scales: 12 x u8, qs: 128 x u8
        Some(("Q4_K"@, 256nat, seq![2nat, 2nat, 12nat, 128nat]))
    } else if id == 13 {
        // d: f16, dmin: f16, scales: 12 x u8, qh: 32 x u8, qs: 128 x u8
        Some(("Q5_K"@, 256nat, seq![2nat, 2nat, 12nat, 32nat, 128nat]))
    } else if id == 14 {
        // ql: 128 x u8, qh: 64 x u8, scales: 16 x i8, d: f16
        Some(("Q6_K"@, 256nat, seq![128nat, 64nat, 16nat, 2nat]))
    } else if id == 15 {
        // d: f32, qs: 256 x i8, bsums: 16 x i16
        Some(("Q8_K"@, 256nat, seq![4nat, 256nat, 32nat]))
    } else if id == 16 {
        // d: f16, qs: 32 x u16
        Some(("IQ2_XXS"@, 256nat, seq![2nat, 64nat]))
    } else if id == 17 {
        // d: f16, qs: 32 x u16, scales: 8 x u8
        Some(("IQ2_XS"@, 256nat, seq![2nat, 64nat, 8nat]))
    } else if id == 18 {
        // d: f16, qs: 96 x u8
        Some(("IQ3_XXS"@, 256nat, seq![2nat, 96nat]))
    } else if id == 19 {
        // d: f16, qs: 32 x u8, qh: 8 x u16
        Some(("IQ1_S"@, 256nat, seq![2nat, 32nat, 16nat]))
    } else if id == 20 {
        // d: f16, qs: 16 x u8
        Some(("IQ4_NL"@, 32nat, seq![2nat, 16nat]))
    } else if id == 21 {
        // d: f16, qs: 64 x u8, qh: 8 x u8, signs: 32 x u8, scales: 4 x u8
        Some(("IQ3_S"@, 256nat, seq![2nat, 64nat, 8nat, 32nat, 4nat]))
    } else if id == 22 {
        // d: f16, qs: 64 x u8, qh: 8 x u8, scales: 8 x u8
        Some(("IQ2_S"@, 256nat, seq![2nat, 64nat, 8nat, 8nat]))
    } else if id == 23 {
        // d: f16, scales_h: u16, scales_l: 4 x u8, qs: 128 x u8
        Some(("IQ4_XS"@, 256nat, seq![2nat, 2nat, 4nat, 128nat]))
    } else if id == 24 {
        // value: i8
        Some(("I8"@, 1nat, seq![1nat]))
    } else if id == 25 {
        // value: i16
        Some(("I16"@, 1nat, seq![2nat]))
    } else if id == 26 {
        // value: i32
        Some(("I32"@, 1nat, seq![4nat]))
    } else if id == 27 {
        // value: i64
        Some(("I64"@, 1nat, seq![8nat]))
    } else if id == 28 {
        // value: f64
        Some(("F64"@, 1nat, seq![8nat]))
    } else if id == 29 {
        // qs: 32 x u8, qh: 16 x u8, scales: 8 x u8
        Some(("IQ1_M"@, 256nat, seq![32nat, 16nat, 8nat]))
    } else if id == 30 {
        // value: bf16
        Some(("BF16"@, 1nat, seq![2nat]))
    } else {
        None
    }
}

/// Each element type's block size is the sum of its struct's fields, and
/// the table knows exactly the types ggml lays out.
pub proof fn lemma_ggml_sizes_follow_the_block_layouts(id: u32)
    ensures
        match ggml_block_layout(id) {
            Some((name, elements, fields)) => ggml_type(id) == Some((name, elements, field_bytes(fields))),
            None => ggml_type(id) is None,
        },
{
    reveal_with_fuel(field_bytes, 6);
}

impl GgmlType {
    pub fn from_id(id: u32) -> (r: Option<GgmlType>)
        ensures
            r is None <==> ggml_type(id) is None,
            r matches Some(t) ==> ggml_type(id) == Some((t.name@, t.block as nat, t.size as nat)),
    {
        let (name, block, size): (&'static str, u64, u64) = match id {
            0 => ("F32", 1, 4),
            1 => ("F16", 1, 2),
            2 => ("Q4_0", 32, 18),
            3 => ("Q4_1", 32, 20),
            6 => ("Q5_0", 32, 22),
            7 => ("Q5_1", 32, 24),
            8 => ("Q8_0", 32, 34),
            9 => ("Q8_1", 32, 40),
            10 => ("Q2_K", 256, 84),
            11 => ("Q3_K", 256, 110),
            12 => ("Q4_K", 256, 144),
            13 => ("Q5_K", 256, 176),
            14 => ("Q6_K", 256, 210),
            15 => ("Q8_K", 256, 292),
            16 => ("IQ2_XXS", 256, 66),
            17 => ("IQ2_XS", 256, 74),
            18 => ("IQ3_XXS", 256, 98),
            19 => ("IQ1_S", 256, 50),
            20 => ("IQ4_NL", 32, 18),
            21 => ("IQ3_S", 256, 110),
            22 => ("IQ2_S", 256, 82),
            23 => ("IQ4_XS", 256, 136),
            24 => ("I8", 1, 1),
            25 => ("I16", 1, 2),
            26 => ("I32", 1, 4),
            27 => ("I64", 1, 8),
            28 => ("F64", 1, 8),
            29 => ("IQ1_M", 256, 56),
            30 => ("BF16", 1, 2),
            _ => {
                return None;
            },
        };
        Some(GgmlType { name, block, size })
    }
}


// ---------------------------------------------------------------------------
// Reading the opening bytes of a file
// ---------------------------------------------------------------------------

/// `String::from_utf8`: std documents that it fails exactly when the bytes are
/// not valid UTF-8 and otherwise returns the string they encode.
#[verifier::external_body]
fn utf8_string(bytes: Vec<u8>) -> (r: Option<String>)
    ensures
        r is Some <==> valid_utf8(bytes@),
        r matches Some(s) ==> s@ == decode_utf8(bytes@),
{
    String::from_utf8(bytes).ok()
}

/// A read of `k` bytes at `p` stays inside both the file and the bytes at hand.
pub open spec fn can_read(h: Seq<u8>, n: nat, p: nat, k: nat) -> bool {
    p + k <= n && p + k <= h.len()
}

pub open spec fn bytes_at(h: Seq<u8>, p: nat, k: nat) -> Seq<u8> {
    h.subrange(p as int, (p + k) as int)
}

/// Why a read of `k` bytes at `p` fails.
pub open spec fn short_read_msg(h: Seq<u8>, n: nat, p: nat, k: nat) -> Seq<char> {
    if p + k > n {
        "wanted "@ + dec(k) + " bytes at offset "@ + dec(p) + " but only "@ + dec((n - p) as nat)
            + " remain"@
    } else {
        "read failed at offset "@ + dec(p) + ": only the first "@ + dec(h.len()) + " bytes were read"@
    }
}

pub open spec fn rd_u8(h: Seq<u8>, n: nat, p: nat) -> Result<(u8, nat), Seq<char>> {
    if can_read(h, n, p, 1) {
        Ok((h[p as int], p + 1))
    } else {
        Err(short_read_msg(h, n, p, 1))
    }
}

pub open spec fn rd_u16(h: Seq<u8>, n: nat, p: nat) -> Result<(u16, nat), Seq<char>> {
    if can_read(h, n, p, 2) {
        Ok((spec_u16_from_le_bytes(bytes_at(h, p, 2)), p + 2))
    } else {
        Err(short_read_msg(h, n, p, 2))
    }
}

pub open spec fn rd_u32(h: Seq<u8>, n: nat, p: nat) -> Result<(u32, nat), Seq<char>> {
    if can_read(h, n, p, 4) {
        Ok((spec_u32_from_le_bytes(bytes_at(h, p, 4)), p + 4))
    } else {
        Err(short_read_msg(h, n, p, 4))
    }
}

pub open spec fn rd_u64(h: Seq<u8>, n: nat, p: nat) -> Result<(u64, nat), Seq<char>> {
    if can_read(h, n, p, 8) {
        Ok((spec_u64_from_le_bytes(bytes_at(h, p, 8)), p + 8))
    } else {
        Err(short_read_msg(h, n, p, 8))
    }
}

/// A length-prefixed UTF-8 string; the length is checked against the file
/// before anything is read for it.
pub open spec fn rd_string(h: Seq<u8>, n: nat, p: nat) -> Result<(Seq<char>, nat), Seq<char>> {
    match rd_u64(h, n, p) {
        Err(e) => Err(e),
        Ok((l, q)) => if l > n - q || l > MAX_HEADER_BYTES {
            Err("a string claims to be "@ + dec(l as nat) + " bytes, more than the file can hold"@)
        } else if !can_read(h, n, q, l as nat) {
            Err(short_read_msg(h, n, q, l as nat))
        } else if !valid_utf8(bytes_at(h, q, l as nat)) {
            Err("a header string is not valid UTF-8"@)
        } else {
            Ok((decode_utf8(bytes_at(h, q, l as nat)), q + l as nat))
        },
    }
}

/// How a signed integer of `full` values is written, given its raw bits `v`.
pub open spec fn signed_text(v: nat, full: nat) -> Seq<char> {
    if 2 * v >= full {
        seq!['-'] + dec((full - v) as nat)
    } else {
        dec(v)
    }
}

pub open spec fn bool_text(v: nat) -> Seq<char> {
    if v != 0 {
        "true"@
    } else {
        "false"@
    }
}

/// Wraps a scalar read into a rendered metadata value.
pub open spec fn rendered<T>(r: Result<(T, nat), Seq<char>>, f: spec_fn(T) -> Option<Seq<char>>) -> Result<
    (Option<Seq<char>>, nat),
    Seq<char>,
> {
    match r {
        Ok((v, q)) => Ok((f(v), q)),
        Err(e) => Err(e),
    }
}

/// One metadata value of type `kind`, read at `p` and rendered as text.
/// Floating-point values are skipped over and have no rendering (`None`).
/// Arrays are counted and skipped, not kept.
pub open spec fn rd_value(h: Seq<u8>, n: nat, p: nat, kind: u32, depth: nat) -> Result<
    (Option<Seq<char>>, nat),
    Seq<char>,
>
    decreases 3 - depth, 0int,
{
    if depth > 2 {
        Err("metadata arrays are nested too deeply"@)
    } else if kind == 0 {
        rendered(rd_u8(h, n, p), |v: u8| Some(dec(v as nat)))
    } else if kind == 1 {
        rendered(rd_u8(h, n, p), |v: u8| Some(signed_text(v as nat, 256)))
    } else if kind == 2 {
        rendered(rd_u16(h, n, p), |v: u16| Some(dec(v as nat)))
    } else if kind == 3 {
        rendered(rd_u16(h, n, p), |v: u16| Some(signed_text(v as nat, 65536)))
    } else if kind == 4 {
        rendered(rd_u32(h, n, p), |v: u32| Some(dec(v as nat)))
    } else if kind == 5 {
        rendered(rd_u32(h, n, p), |v: u32| Some(signed_text(v as nat, 4294967296)))
    } else if kind == 6 {
        rendered(rd_u32(h, n, p), |v: u32| None::<Seq<char>>)
    } else if kind == 7 {
        rendered(rd_u8(h, n, p), |v: u8| Some(bool_text(v as nat)))
    } else if kind == 8 {
        rendered(rd_string(h, n, p), |v: Seq<char>| Some(v))
    } else if kind == 9 {
        match rd_u32(h, n, p) {
            Err(e) => Err(e),
            Ok((inner, q)) => match rd_u64(h, n, q) {
                Err(e) => Err(e),
                Ok((count, q2)) => if count > n - q2 {
                    Err(
                        "an array claims "@ + dec(count as nat)
                            + " entries, more than the file has bytes left"@,
                    )
                } else {
                    match skip_values(h, n, q2, inner, depth + 1, count as nat) {
                        Err(e) => Err(e),
                        Ok(q3) => Ok((Some("["@ + dec(count as nat) + " values]"@), q3)),
                    }
                },
            },
        }
    } else if kind == 10 {
        rendered(rd_u64(h, n, p), |v: u64| Some(dec(v as nat)))
    } else if kind == 11 {
        rendered(rd_u64(h, n, p), |v: u64| Some(signed_text(v as nat, 18446744073709551616)))
    } else if kind == 12 {
        rendered(rd_u64(h, n, p), |v: u64| None::<Seq<char>>)
    } else {
        Err("unknown metadata value type "@ + dec(kind as nat))
    }
}

/// Where `count` consecutive values of type `kind` starting at `p` end.
pub open spec fn skip_values(h: Seq<u8>, n: nat, p: nat, kind: u32, depth: nat, count: nat) -> Result<
    nat,
    Seq<char>,
>
    decreases 3 - depth, count + 1,
{
    if count == 0 {
        Ok(p)
    } else {
        match skip_values(h, n, p, kind, depth, (count - 1) as nat) {
            Err(e) => Err(e),
            Ok(q) => match rd_value(h, n, q, kind, depth) {
                Err(e) => Err(e),
                Ok((_, q2)) => Ok(q2),
            },
        }
    }
}

proof fn lemma_skip_err(h: Seq<u8>, n: nat, p: nat, kind: u32, depth: nat, i: nat, c: nat)
    requires
        i <= c,
        skip_values(h, n, p, kind, depth, i) is Err,
    ensures
        skip_values(h, n, p, kind, depth, c) == skip_values(h, n, p, kind, depth, i),
    decreases c - i,
{
    if i < c {
        lemma_skip_err(h, n, p, kind, depth, i, (c - 1) as nat);
    }
}

fn short_read(h: &[u8], n: u64, p: u64, k: u64) -> (e: String)
    requires
        p <= n,
    ensures
        e@ == short_read_msg(h@, n as nat, p as nat, k as nat),
{
    let mut e = String::new();
    if k > n - p {
        e.append("wanted ");
        e.append(dec_string(k).as_str());
        e.append(" bytes at offset ");
        e.append(dec_string(p).as_str());
        e.append(" but only ");
        e.append(dec_string(n - p).as_str());
        e.append(" remain");
    } else {
        e.append("read failed at offset ");
        e.append(dec_string(p).as_str());
        e.append(": only the first ");
        e.append(dec_string(h.len() as u64).as_str());
        e.append(" bytes were read");
    }
    e
}

/// Check that `k` bytes can be read at `p`; on success, where the read ends.
fn take(h: &[u8], n: u64, p: u64, k: u64) -> (r: Result<u64, String>)
    requires
        p <= n,
    ensures
        r matches Ok(q) ==> can_read(h@, n as nat, p as nat, k as nat) && q == p + k && q <= n,
        r matches Err(e) ==> !can_read(h@, n as nat, p as nat, k as nat) && e@ == short_read_msg(
            h@,
            n as nat,
            p as nat,
            k as nat,
        ),
{
    if k > n - p || k > (h.len() as u64) || p > (h.len() as u64) - k {
        return Err(short_read(h, n, p, k));
    }
    Ok(p + k)
}

fn read_u8(h: &[u8], n: u64, p: u64) -> (r: Result<(u8, u64), String>)
    requires
        p <= n,
    ensures
        r matches Ok((v, q)) ==> rd_u8(h@, n as nat, p as nat) == Ok::<(u8, nat), Seq<char>>((v, q as nat)) && q <= n,
        r matches Err(e) ==> rd_u8(h@, n as nat, p as nat) == Err::<(u8, nat), Seq<char>>(e@),
{
    let q = match take(h, n, p, 1) {
        Ok(q) => q,
        Err(e) => {
            return Err(e);
        },
    };
    let hl: usize = h.len();
    assert(q as nat <= hl);
    Ok((h[p as usize], q))
}

fn read_u16(h: &[u8], n: u64, p: u64) -> (r: Result<(u16, u64), String>)
    requires
        p <= n,
    ensures
        r matches Ok((v, q)) ==> rd_u16(h@, n as nat, p as nat) == Ok::<(u16, nat), Seq<char>>((v, q as nat)) && q <= n,
        r matches Err(e) ==> rd_u16(h@, n as nat, p as nat) == Err::<(u16, nat), Seq<char>>(e@),
{
    let q = match take(h, n, p, 2) {
        Ok(q) => q,
        Err(e) => {
            return Err(e);
        },
    };
    let hl: usize = h.len();
    assert(q as nat <= hl);
    let b = vstd::slice::slice_subrange(h, p as usize, q as usize);
    Ok((u16_from_le_bytes(b), q))
}

fn read_u32(h: &[u8], n: u64, p: u64) -> (r: Result<(u32, u64), String>)
    requires
        p <= n,
    ensures
        r matches Ok((v, q)) ==> rd_u32(h@, n as nat, p as nat) == Ok::<(u32, nat), Seq<char>>((v, q as nat)) && q <= n,
        r matches Err(e) ==> rd_u32(h@, n as nat, p as nat) == Err::<(u32, nat), Seq<char>>(e@),
{
    let q = match take(h, n, p, 4) {
        Ok(q) => q,
        Err(e) => {
            return Err(e);
        },
    };
    let hl: usize = h.len();
    assert(q as nat <= hl);
    let b = vstd::slice::slice_subrange(h, p as usize, q as usize);
    Ok((u32_from_le_bytes(b), q))
}

fn read_u64(h: &[u8], n: u64, p: u64) -> (r: Result<(u64, u64), String>)
    requires
        p <= n,
    ensures
        r matches Ok((v, q)) ==> rd_u64(h@, n as nat, p as nat) == Ok::<(u64, nat), Seq<char>>((v, q as nat)) && q <= n,
        r matches Err(e) ==> rd_u64(h@, n as nat, p as nat) == Err::<(u64, nat), Seq<char>>(e@),
{
    let q = match take(h, n, p, 8) {
        Ok(q) => q,
        Err(e) => {
            return Err(e);
        },
    };
    let hl: usize = h.len();
    assert(q as nat <= hl);
    let b = vstd::slice::slice_subrange(h, p as usize, q as usize);
    Ok((u64_from_le_bytes(b), q))
}


pub open spec fn opt_text(x: Option<String>) -> Option<Seq<char>> {
    match x {
        Some(s) => Some(s@),
        None => None,
    }
}

fn read_string(h: &[u8], n: u64, p: u64) -> (r: Result<(String, u64), String>)
    requires
        p <= n,
    ensures
        r matches Ok((x, q)) ==> rd_string(h@, n as nat, p as nat) == Ok::<(Seq<char>, nat), Seq<char>>((x@, q as nat)) && q <= n,
        r matches Err(e) ==> rd_string(h@, n as nat, p as nat) == Err::<(Seq<char>, nat), Seq<char>>(e@),
{
    let (l, q) = read_u64(h, n, p)?;
    if l > n - q || l > MAX_HEADER_BYTES {
        let mut e = String::new();
        e.append("a string claims to be ");
        e.append(dec_string(l).as_str());
        e.append(" bytes, more than the file can hold");
        return Err(e);
    }
    let end = match take(h, n, q, l) {
        Ok(end) => end,
        Err(e) => {
            return Err(e);
        },
    };
    let hl: usize = h.len();
    assert(end as nat <= hl);
    let bytes = vstd::slice::slice_to_vec(vstd::slice::slice_subrange(h, q as usize, end as usize));
    match utf8_string(bytes) {
        Some(text) => Ok((text, end)),
        None => Err("a header string is not valid UTF-8".to_owned()),
    }
}

fn signed_string(v: u64, full: u128) -> (s: String)
    requires
        v < full,
        full <= 18446744073709551616,
    ensures
        s@ == signed_text(v as nat, full as nat),
{
    if 2 * (v as u128) >= full {
        let mut s = String::new();
        push_char(&mut s, '-');
        s.append(dec_string((full - v as u128) as u64).as_str());
        s
    } else {
        dec_string(v)
    }
}

fn read_value(h: &[u8], n: u64, p: u64, kind: u32, depth: u32) -> (r: Result<(Option<String>, u64), String>)
    requires
        p <= n,
    ensures
        r matches Ok((x, q)) ==> rd_value(h@, n as nat, p as nat, kind, depth as nat) == Ok::<(Option<Seq<char>>, nat), Seq<char>>((opt_text(x), q as nat)) && q <= n,
        r matches Err(e) ==> rd_value(h@, n as nat, p as nat, kind, depth as nat) == Err::<(Option<Seq<char>>, nat), Seq<char>>(e@),
    decreases 3 - depth,
{
    if depth > 2 {
        return Err("metadata arrays are nested too deeply".to_owned());
    }
    if kind == 0 {
        let (v, q) = read_u8(h, n, p)?;
        Ok((Some(dec_string(v as u64)), q))
    } else if kind == 1 {
        let (v, q) = read_u8(h, n, p)?;
        Ok((Some(signed_string(v as u64, 256)), q))
    } else if kind == 2 {
        let (v, q) = read_u16(h, n, p)?;
        Ok((Some(dec_string(v as u64)), q))
    } else if kind == 3 {
        let (v, q) = read_u16(h, n, p)?;
        Ok((Some(signed_string(v as u64, 65536)), q))
    } else if kind == 4 {
        let (v, q) = read_u32(h, n, p)?;
        Ok((Some(dec_string(v as u64)), q))
    } else if kind == 5 {
        let (v, q) = read_u32(h, n, p)?;
        Ok((Some(signed_string(v as u64, 4294967296)), q))
    } else if kind == 6 {
        let (_, q) = read_u32(h, n, p)?;
        Ok((None, q))
    } else if kind == 7 {
        let (v, q) = read_u8(h, n, p)?;
        let t = if v != 0 { "true".to_owned() } else { "false".to_owned() };
        Ok((Some(t), q))
    } else if kind == 8 {
        let (t, q) = read_string(h, n, p)?;
        Ok((Some(t), q))
    } else if kind == 9 {
        let (inner, q) = read_u32(h, n, p)?;
        let (count, q2) = read_u64(h, n, q)?;
        if count > n - q2 {
            let mut e = String::new();
            e.append("an array claims ");
            e.append(dec_string(count).as_str());
            e.append(" entries, more than the file has bytes left");
            return Err(e);
        }
        let mut pos = q2;
        let mut i: u64 = 0;
        while i < count
            invariant
                i <= count,
                pos <= n,
                depth <= 2,
                kind == 9,
                p <= n,
                rd_u32(h@, n as nat, p as nat) == Ok::<(u32, nat), Seq<char>>((inner, q as nat)),
                rd_u64(h@, n as nat, q as nat) == Ok::<(u64, nat), Seq<char>>((count, q2 as nat)),
                count <= n - q2,
                skip_values(h@, n as nat, q2 as nat, inner, depth as nat + 1, i as nat) == Ok::<nat, Seq<char>>(pos as nat),
            decreases count - i,
        {
            match read_value(h, n, pos, inner, depth + 1) {
                Ok((_, next)) => {
                    pos = next;
                },
                Err(e) => {
                    proof {
                        assert(skip_values(h@, n as nat, q2 as nat, inner, depth as nat + 1, i as nat + 1) == Err::<nat, Seq<char>>(e@));
                        lemma_skip_err(h@, n as nat, q2 as nat, inner, depth as nat + 1, i as nat + 1, count as nat);
                    }
                    return Err(e);
                },
            }
            i = i + 1;
        }
        let mut t = String::new();
        t.append("[");
        t.append(dec_string(count).as_str());
        t.append(" values]");
        Ok((Some(t), pos))
    } else if kind == 10 {
        let (v, q) = read_u64(h, n, p)?;
        Ok((Some(dec_string(v)), q))
    } else if kind == 11 {
        let (v, q) = read_u64(h, n, p)?;
        Ok((Some(signed_string(v, 18446744073709551616)), q))
    } else if kind == 12 {
        let (_, q) = read_u64(h, n, p)?;
        Ok((None, q))
    } else {
        let mut e = String::new();
        e.append("unknown metadata value type ");
        e.append(dec_string(kind as u64).as_str());
        Err(e)
    }
}


/// One metadata entry: its key and its rendered value.
pub open spec fn rd_entry(h: Seq<u8>, n: nat, p: nat) -> Result<((Seq<char>, Option<Seq<char>>), nat), Seq<char>> {
    match rd_string(h, n, p) {
        Err(e) => Err(e),
        Ok((k, q)) => match rd_u32(h, n, q) {
            Err(e) => Err(e),
            Ok((kind, q2)) => match rd_value(h, n, q2, kind, 0) {
                Err(e) => Err(e),
                Ok((v, q3)) => Ok(((k, v), q3)),
            },
        },
    }
}

/// `count` metadata entries in file order.
pub open spec fn rd_metadata(h: Seq<u8>, n: nat, p: nat, count: nat) -> Result<
    (Seq<(Seq<char>, Option<Seq<char>>)>, nat),
    Seq<char>,
>
    decreases count,
{
    if count == 0 {
        Ok((seq![], p))
    } else {
        match rd_metadata(h, n, p, (count - 1) as nat) {
            Err(e) => Err(e),
            Ok((es, q)) => match rd_entry(h, n, q) {
                Err(e) => Err(e),
                Ok((en, q2)) => Ok((es.push(en), q2)),
            },
        }
    }
}

proof fn lemma_metadata_err(h: Seq<u8>, n: nat, p: nat, i: nat, c: nat)
    requires
        i <= c,
        rd_metadata(h, n, p, i) is Err,
    ensures
        rd_metadata(h, n, p, c) == rd_metadata(h, n, p, i),
    decreases c - i,
{
    if i < c {
        lemma_metadata_err(h, n, p, i, (c - 1) as nat);
    }
}

/// The value stored under `k`; a key given twice keeps its last value.
pub open spec fn meta_get(es: Seq<(Seq<char>, Option<Seq<char>>)>, k: Seq<char>) -> Option<Option<Seq<char>>>
    decreases es.len(),
{
    if es.len() == 0 {
        None
    } else if es.last().0 == k {
        Some(es.last().1)
    } else {
        meta_get(es.drop_last(), k)
    }
}

pub open spec fn meta_view(v: Seq<(String, Option<String>)>) -> Seq<(Seq<char>, Option<Seq<char>>)> {
    v.map_values(|e: (String, Option<String>)| (e.0@, opt_text(e.1)))
}

fn read_metadata(h: &[u8], n: u64, p: u64, count: u64) -> (r: Result<(Vec<(String, Option<String>)>, u64), String>)
    requires
        p <= n,
    ensures
        r matches Ok((v, q)) ==> rd_metadata(h@, n as nat, p as nat, count as nat) == Ok::<(Seq<(Seq<char>, Option<Seq<char>>)>, nat), Seq<char>>((meta_view(v@), q as nat)) && q <= n,
        r matches Err(e) ==> rd_metadata(h@, n as nat, p as nat, count as nat) == Err::<(Seq<(Seq<char>, Option<Seq<char>>)>, nat), Seq<char>>(e@),
{
    let mut v: Vec<(String, Option<String>)> = Vec::new();
    let mut pos = p;
    let mut i: u64 = 0;
    proof {
        assert(meta_view(v@) =~= seq![]);
    }
    while i < count
        invariant
            i <= count,
            pos <= n,
            rd_metadata(h@, n as nat, p as nat, i as nat) == Ok::<(Seq<(Seq<char>, Option<Seq<char>>)>, nat), Seq<char>>((meta_view(v@), pos as nat)),
        decreases count - i,
    {
        let step = read_string(h, n, pos);
        let (key, q) = match step {
            Ok(x) => x,
            Err(e) => {
                proof {
                    lemma_metadata_err(h@, n as nat, p as nat, i as nat + 1, count as nat);
                }
                return Err(e);
            },
        };
        let (kind, q2) = match read_u32(h, n, q) {
            Ok(x) => x,
            Err(e) => {
                proof {
                    lemma_metadata_err(h@, n as nat, p as nat, i as nat + 1, count as nat);
                }
                return Err(e);
            },
        };
        let (value, q3) = match read_value(h, n, q2, kind, 0) {
            Ok(x) => x,
            Err(e) => {
                proof {
                    lemma_metadata_err(h@, n as nat, p as nat, i as nat + 1, count as nat);
                }
                return Err(e);
            },
        };
        let ghost old_v = v@;
        v.push((key, value));
        proof {
            assert(meta_view(v@) =~= meta_view(old_v).push((key@, opt_text(value))));
        }
        pos = q3;
        i = i + 1;
    }
    Ok((v, pos))
}

/// Index of the entry that `meta_get` answers with.
fn meta_find(v: &Vec<(String, Option<String>)>, key: &str) -> (r: Option<usize>)
    ensures
        r is None ==> meta_get(meta_view(v@), key@) is None,
        r matches Some(i) ==> i < v.len() && meta_get(meta_view(v@), key@) == Some(opt_text(v@[i as int].1)),
{
    let mut i: usize = v.len();
    assert(v@.subrange(0, i as int) =~= v@);
    while i > 0
        invariant
            i <= v.len(),
            meta_get(meta_view(v@), key@) == meta_get(meta_view(v@.subrange(0, i as int)), key@),
        decreases i,
    {
        let ghost sub = v@.subrange(0, i as int);
        proof {
            assert(meta_view(sub).last() == (v@[i - 1].0@, opt_text(v@[i - 1].1)));
            assert(meta_view(sub).drop_last() =~= meta_view(v@.subrange(0, i - 1)));
        }
        if crate::text::str_eq(v[i - 1].0.as_str(), key) {
            return Some(i - 1);
        }
        i = i - 1;
    }
    proof {
        assert(meta_view(v@.subrange(0, 0)) =~= seq![]);
    }
    None
}

/// One tensor descriptor: name, dimensions, element type id, data offset.
pub struct TensorInfo {
    pub name: String,
    pub dims: Vec<u64>,
    pub kind: u32,
    pub offset: u64,
}

pub open spec fn tensor_view(t: TensorInfo) -> (Seq<char>, Seq<u64>, u32, u64) {
    (t.name@, t.dims@, t.kind, t.offset)
}

pub open spec fn tensors_view(ts: Seq<TensorInfo>) -> Seq<(Seq<char>, Seq<u64>, u32, u64)> {
    ts.map_values(|t: TensorInfo| tensor_view(t))
}

/// `k` little-endian 64-bit dimensions.
pub open spec fn rd_dims(h: Seq<u8>, n: nat, p: nat, k: nat) -> Result<(Seq<u64>, nat), Seq<char>>
    decreases k,
{
    if k == 0 {
        Ok((seq![], p))
    } else {
        match rd_dims(h, n, p, (k - 1) as nat) {
            Err(e) => Err(e),
            Ok((ds, q)) => match rd_u64(h, n, q) {
                Err(e) => Err(e),
                Ok((d, q2)) => Ok((ds.push(d), q2)),
            },
        }
    }
}

proof fn lemma_dims_err(h: Seq<u8>, n: nat, p: nat, i: nat, c: nat)
    requires
        i <= c,
        rd_dims(h, n, p, i) is Err,
    ensures
        rd_dims(h, n, p, c) == rd_dims(h, n, p, i),
    decreases c - i,
{
    if i < c {
        lemma_dims_err(h, n, p, i, (c - 1) as nat);
    }
}

/// One tensor descriptor; more than four dimensions is corruption.
pub open spec fn rd_tensor(h: Seq<u8>, n: nat, p: nat) -> Result<((Seq<char>, Seq<u64>, u32, u64), nat), Seq<char>> {
    match rd_string(h, n, p) {
        Err(e) => Err(e),
        Ok((name, q)) => match rd_u32(h, n, q) {
            Err(e) => Err(e),
            Ok((nd, q2)) => if nd > 4 {
                Err("tensor '"@ + name + "' declares "@ + dec(nd as nat) + " dimensions (max 4)"@)
            } else {
                match rd_dims(h, n, q2, nd as nat) {
                    Err(e) => Err(e),
                    Ok((dims, q3)) => match rd_u32(h, n, q3) {
                        Err(e) => Err(e),
                        Ok((kind, q4)) => match rd_u64(h, n, q4) {
                            Err(e) => Err(e),
                            Ok((offset, q5)) => Ok(((name, dims, kind, offset), q5)),
                        },
                    },
                }
            },
        },
    }
}

/// `count` tensor descriptors in file order.
pub open spec fn rd_tensors(h: Seq<u8>, n: nat, p: nat, count: nat) -> Result<
    (Seq<(Seq<char>, Seq<u64>, u32, u64)>, nat),
    Seq<char>,
>
    decreases count,
{
    if count == 0 {
        Ok((seq![], p))
    } else {
        match rd_tensors(h, n, p, (count - 1) as nat) {
            Err(e) => Err(e),
            Ok((ts, q)) => match rd_tensor(h, n, q) {
                Err(e) => Err(e),
                Ok((t, q2)) => Ok((ts.push(t), q2)),
            },
        }
    }
}

proof fn lemma_tensors_err(h: Seq<u8>, n: nat, p: nat, i: nat, c: nat)
    requires
        i <= c,
        rd_tensors(h, n, p, i) is Err,
    ensures
        rd_tensors(h, n, p, c) == rd_tensors(h, n, p, i),
    decreases c - i,
{
    if i < c {
        lemma_tensors_err(h, n, p, i, (c - 1) as nat);
    }
}

fn read_tensor(h: &[u8], n: u64, p: u64) -> (r: Result<(TensorInfo, u64), String>)
    requires
        p <= n,
    ensures
        r matches Ok((t, q)) ==> rd_tensor(h@, n as nat, p as nat) == Ok::<((Seq<char>, Seq<u64>, u32, u64), nat), Seq<char>>((tensor_view(t), q as nat)) && q <= n,
        r matches Err(e) ==> rd_tensor(h@, n as nat, p as nat) == Err::<((Seq<char>, Seq<u64>, u32, u64), nat), Seq<char>>(e@),
{
    let (name, q) = read_string(h, n, p)?;
    let (nd, q2) = read_u32(h, n, q)?;
    if nd > 4 {
        let mut e = String::new();
        e.append("tensor '");
        e.append(name.as_str());
        e.append("' declares ");
        e.append(dec_string(nd as u64).as_str());
        e.append(" dimensions (max 4)");
        return Err(e);
    }
    let mut dims: Vec<u64> = Vec::new();
    let mut pos = q2;
    let mut i: u32 = 0;
    while i < nd
        invariant
            i <= nd,
            nd <= 4,
            pos <= n,
            rd_string(h@, n as nat, p as nat) == Ok::<(Seq<char>, nat), Seq<char>>((name@, q as nat)),
            rd_u32(h@, n as nat, q as nat) == Ok::<(u32, nat), Seq<char>>((nd, q2 as nat)),
            rd_dims(h@, n as nat, q2 as nat, i as nat) == Ok::<(Seq<u64>, nat), Seq<char>>((dims@, pos as nat)),
        decreases nd - i,
    {
        let (d, next) = match read_u64(h, n, pos) {
            Ok(x) => x,
            Err(e) => {
                proof {
                    lemma_dims_err(h@, n as nat, q2 as nat, i as nat + 1, nd as nat);
                }
                return Err(e);
            },
        };
        dims.push(d);
        pos = next;
        i = i + 1;
    }
    let (kind, q4) = read_u32(h, n, pos)?;
    let (offset, q5) = read_u64(h, n, q4)?;
    Ok((TensorInfo { name, dims, kind, offset }, q5))
}

fn read_tensor_infos(h: &[u8], n: u64, p: u64, count: u64) -> (r: Result<(Vec<TensorInfo>, u64), String>)
    requires
        p <= n,
    ensures
        r matches Ok((v, q)) ==> rd_tensors(h@, n as nat, p as nat, count as nat) == Ok::<(Seq<(Seq<char>, Seq<u64>, u32, u64)>, nat), Seq<char>>((tensors_view(v@), q as nat)) && q <= n,
        r matches Err(e) ==> rd_tensors(h@, n as nat, p as nat, count as nat) == Err::<(Seq<(Seq<char>, Seq<u64>, u32, u64)>, nat), Seq<char>>(e@),
{
    let mut v: Vec<TensorInfo> = Vec::new();
    let mut pos = p;
    let mut i: u64 = 0;
    proof {
        assert(tensors_view(v@) =~= seq![]);
    }
    while i < count
        invariant
            i <= count,
            pos <= n,
            rd_tensors(h@, n as nat, p as nat, i as nat) == Ok::<(Seq<(Seq<char>, Seq<u64>, u32, u64)>, nat), Seq<char>>((tensors_view(v@), pos as nat)),
        decreases count - i,
    {
        let (t, next) = match read_tensor(h, n, pos) {
            Ok(x) => x,
            Err(e) => {
                proof {
                    lemma_tensors_err(h@, n as nat, p as nat, i as nat + 1, count as nat);
                }
                return Err(e);
            },
        };
        let ghost old_v = v@;
        let ghost tv = tensor_view(t);
        v.push(t);
        proof {
            assert(tensors_view(v@) =~= tensors_view(old_v).push(tv));
        }
        pos = next;
        i = i + 1;
    }
    Ok((v, pos))
}


// ---------------------------------------------------------------------------
// Tallies of element types
// ---------------------------------------------------------------------------

/// Lexicographic order of character sequences, which for strings is the
/// order `String`'s `Ord` gives.
pub open spec fn seq_lt(a: Seq<char>, b: Seq<char>) -> bool
    decreases a.len(),
{
    if a.len() == 0 {
        b.len() > 0
    } else if b.len() == 0 {
        false
    } else if a[0] != b[0] {
        a[0] < b[0]
    } else {
        seq_lt(a.drop_first(), b.drop_first())
    }
}

proof fn lemma_seq_lt_irreflexive(a: Seq<char>)
    ensures
        !seq_lt(a, a),
    decreases a.len(),
{
    if a.len() > 0 {
        lemma_seq_lt_irreflexive(a.drop_first());
    }
}

proof fn lemma_seq_lt_transitive(a: Seq<char>, b: Seq<char>, c: Seq<char>)
    requires
        seq_lt(a, b),
        seq_lt(b, c),
    ensures
        seq_lt(a, c),
    decreases a.len(),
{
    if a.len() > 0 && b.len() > 0 && c.len() > 0 && a[0] == b[0] && b[0] == c[0] {
        lemma_seq_lt_transitive(a.drop_first(), b.drop_first(), c.drop_first());
    }
}

proof fn lemma_seq_lt_total(a: Seq<char>, b: Seq<char>)
    requires
        a != b,
    ensures
        seq_lt(a, b) || seq_lt(b, a),
    decreases a.len(),
{
    if a.len() > 0 && b.len() > 0 && a[0] == b[0] {
        if a.drop_first() == b.drop_first() {
            assert(a =~= seq![a[0]] + a.drop_first());
            assert(b =~= seq![b[0]] + b.drop_first());
        }
        lemma_seq_lt_total(a.drop_first(), b.drop_first());
    } else if a.len() == 0 && b.len() == 0 {
        assert(a =~= b);
    }
}

/// `seq_lt` on two runs of characters.
fn less_chars(a: &[char], b: &[char]) -> (r: bool)
    ensures
        r == seq_lt(a@, b@),
{
    let mut i: usize = 0;
    assert(a@.subrange(0, a.len() as int) =~= a@);
    assert(b@.subrange(0, b.len() as int) =~= b@);
    while i < a.len() && i < b.len()
        invariant
            i <= a.len(),
            i <= b.len(),
            seq_lt(a@, b@) == seq_lt(a@.subrange(i as int, a.len() as int), b@.subrange(i as int, b.len() as int)),
        decreases a.len() - i,
    {
        let ghost sa = a@.subrange(i as int, a.len() as int);
        let ghost sb = b@.subrange(i as int, b.len() as int);
        if a[i] != b[i] {
            assert(sa[0] == a@[i as int] && sb[0] == b@[i as int]);
            return a[i] < b[i];
        }
        assert(sa.drop_first() =~= a@.subrange(i + 1, a.len() as int));
        assert(sb.drop_first() =~= b@.subrange(i + 1, b.len() as int));
        i = i + 1;
    }
    i < b.len()
}

/// How many tensors a tally has for `k` (none when `k` is absent).
pub open spec fn tally<K>(m: Map<K, nat>, k: K) -> nat {
    if m.dom().contains(k) {
        m[k]
    } else {
        0
    }
}

pub open spec fn bump<K>(m: Map<K, nat>, k: K) -> Map<K, nat> {
    m.insert(k, tally(m, k) + 1)
}

pub open spec fn type_pairs(v: Seq<TypeCount>) -> Seq<(Seq<char>, nat)> {
    v.map_values(|t: TypeCount| (t.name@, t.tensors as nat))
}

/// `p` lists exactly the entries of `m`, each once.
pub open spec fn lists<K>(p: Seq<(K, nat)>, m: Map<K, nat>) -> bool {
    &&& forall|i: int| 0 <= i < p.len() ==> m.dom().contains(#[trigger] p[i].0) && m[p[i].0] == p[i].1
    &&& forall|k: K| #[trigger] m.dom().contains(k) ==> exists|i: int| 0 <= i < p.len() && p[i].0 == k
    &&& forall|i: int, j: int| 0 <= i < j < p.len() ==> #[trigger] p[i].0 != #[trigger] p[j].0
}

/// The order tensor types are listed in: most tensors first, then by name.
pub open spec fn ranks_before(a: (Seq<char>, nat), b: (Seq<char>, nat)) -> bool {
    a.1 > b.1 || (a.1 == b.1 && seq_lt(a.0, b.0))
}

pub open spec fn ranked(p: Seq<(Seq<char>, nat)>) -> bool {
    forall|i: int, j: int| 0 <= i < j < p.len() ==> ranks_before(#[trigger] p[i], #[trigger] p[j])
}

/// Add one tensor of type `name` to an unordered tally.
fn count_type(v: &mut Vec<TypeCount>, name: &str, Ghost(m): Ghost<Map<Seq<char>, nat>>, Ghost(limit): Ghost<nat>)
    requires
        lists(type_pairs(old(v)@), m),
        forall|k: Seq<char>| #[trigger] m.dom().contains(k) ==> 1 <= m[k] <= limit,
        limit < usize::MAX,
    ensures
        lists(type_pairs(final(v)@), bump(m, name@)),
{
    let ghost p0 = type_pairs(v@);
    let mut i: usize = 0;
    while i < v.len()
        invariant
            i <= v.len(),
            v@ == old(v)@,
            p0 == type_pairs(v@),
            lists(p0, m),
            forall|k: Seq<char>| #[trigger] m.dom().contains(k) ==> 1 <= m[k] <= limit,
            limit < usize::MAX,
            forall|j: int| 0 <= j < i ==> (#[trigger] v@[j]).name@ != name@,
        decreases v.len() - i,
    {
        if crate::text::str_eq(v[i].name.as_str(), name) {
            assert(p0[i as int].0 == name@);
            let t = v[i].tensors;
            assert(p0[i as int].1 == t);
            assert(m.dom().contains(p0[i as int].0));
            assert(t <= limit);
            let ghost before = v@;
            v.set(i, TypeCount { name: v[i].name.clone(), tensors: t + 1 });
            proof {
                let p1 = type_pairs(v@);
                let m1 = bump(m, name@);
                assert(p1 =~= p0.update(i as int, (name@, (t + 1) as nat)));
                assert forall|k: Seq<char>| #[trigger] m1.dom().contains(k) implies exists|j: int| 0 <= j < p1.len() && p1[j].0 == k by {
                    if k == name@ {
                        assert(p1[i as int].0 == k);
                    } else {
                        let j = choose|j: int| 0 <= j < p0.len() && p0[j].0 == k;
                        assert(p1[j].0 == k);
                    }
                }
                assert forall|a: int, b: int| 0 <= a < b < p1.len() implies #[trigger] p1[a].0 != #[trigger] p1[b].0 by {
                    assert(p0[a].0 != p0[b].0);
                }
            }
            return;
        }
        i = i + 1;
    }
    proof {
        assert(!m.dom().contains(name@)) by {
            if m.dom().contains(name@) {
                let j = choose|j: int| 0 <= j < p0.len() && p0[j].0 == name@;
                assert(v@[j].name@ == name@);
            }
        }
    }
    v.push(TypeCount { name: crate::text::owned(name), tensors: 1 });
    proof {
        let p1 = type_pairs(v@);
        let m1 = bump(m, name@);
        assert(p1 =~= p0.push((name@, 1nat)));
        assert forall|k: Seq<char>| #[trigger] m1.dom().contains(k) implies exists|j: int| 0 <= j < p1.len() && p1[j].0 == k by {
            if k == name@ {
                assert(p1[p0.len() as int].0 == k);
            } else {
                let j = choose|j: int| 0 <= j < p0.len() && p0[j].0 == k;
                assert(p1[j].0 == k);
            }
        }
    }
}


proof fn lemma_ranks_before_transitive(a: (Seq<char>, nat), b: (Seq<char>, nat), c: (Seq<char>, nat))
    requires
        ranks_before(a, b),
        ranks_before(b, c),
    ensures
        ranks_before(a, c),
{
    if a.1 == b.1 && b.1 == c.1 {
        lemma_seq_lt_transitive(a.0, b.0, c.0);
    }
}

proof fn lemma_ranks_before_total(a: (Seq<char>, nat), b: (Seq<char>, nat))
    requires
        a.0 != b.0,
    ensures
        ranks_before(a, b) || ranks_before(b, a),
{
    lemma_seq_lt_total(a.0, b.0);
}

fn ranks_before_exec(a: &TypeCount, b: &TypeCount) -> (r: bool)
    ensures
        r == ranks_before((a.name@, a.tensors as nat), (b.name@, b.tensors as nat)),
{
    if a.tensors != b.tensors {
        return a.tensors > b.tensors;
    }
    let x = chars_of(a.name.as_str());
    let y = chars_of(b.name.as_str());
    less_chars(&x, &y)
}

/// A tally put in ranked order: most tensors first, ties by name.
fn rank_types(v: &Vec<TypeCount>, Ghost(m): Ghost<Map<Seq<char>, nat>>) -> (r: Vec<TypeCount>)
    requires
        lists(type_pairs(v@), m),
    ensures
        lists(type_pairs(r@), m),
        ranked(type_pairs(r@)),
{
    let ghost vp = type_pairs(v@);
    let mut out: Vec<TypeCount> = Vec::new();
    let ghost mut pm: Map<Seq<char>, nat> = Map::empty();
    let mut i: usize = 0;
    proof {
        assert(type_pairs(out@) =~= seq![]);
    }
    while i < v.len()
        invariant
            i <= v.len(),
            vp == type_pairs(v@),
            lists(vp, m),
            lists(type_pairs(out@), pm),
            ranked(type_pairs(out@)),
            forall|k: Seq<char>| #[trigger] pm.dom().contains(k) <==> exists|j: int| 0 <= j < i && vp[j].0 == k,
            forall|k: Seq<char>| #[trigger] pm.dom().contains(k) ==> m.dom().contains(k) && pm[k] == m[k],
        decreases v.len() - i,
    {
        let x = TypeCount { name: v[i].name.clone(), tensors: v[i].tensors };
        let ghost xp = (x.name@, x.tensors as nat);
        assert(xp == vp[i as int]);
        let ghost op = type_pairs(out@);
        let mut pos: usize = 0;
        while pos < out.len() && !ranks_before_exec(&x, &out[pos])
            invariant
                pos <= out.len(),
                op == type_pairs(out@),
                xp == (x.name@, x.tensors as nat),
                forall|j: int| 0 <= j < pos ==> !ranks_before(xp, #[trigger] op[j]),
            decreases out.len() - pos,
        {
            assert(op[pos as int] == (out@[pos as int].name@, out@[pos as int].tensors as nat));
            pos = pos + 1;
        }
        proof {
            assert(!pm.dom().contains(xp.0)) by {
                if pm.dom().contains(xp.0) {
                    let j = choose|j: int| 0 <= j < i && vp[j].0 == xp.0;
                    assert(vp[j].0 != vp[i as int].0);
                }
            }
        }
        out.insert(pos, x);
        proof {
            let np = type_pairs(out@);
            assert(np =~= op.insert(pos as int, xp));
            let npm = pm.insert(xp.0, xp.1);
            assert forall|a: int, b: int| 0 <= a < b < np.len() implies ranks_before(#[trigger] np[a], #[trigger] np[b]) by {
                if b < pos {
                    assert(np[a] == op[a] && np[b] == op[b]);
                } else if b == pos {
                    assert(np[a] == op[a]);
                    assert(!ranks_before(xp, op[a]));
                    assert(op[a].0 != xp.0) by {
                        assert(pm.dom().contains(op[a].0));
                    }
                    lemma_ranks_before_total(xp, op[a]);
                } else if a == pos {
                    assert(np[b] == op[b - 1]);
                    assert(ranks_before(xp, op[pos as int]));
                    if b - 1 > pos {
                        lemma_ranks_before_transitive(xp, op[pos as int], op[b - 1]);
                    }
                } else if a < pos {
                    assert(np[a] == op[a] && np[b] == op[b - 1]);
                } else {
                    assert(np[a] == op[a - 1] && np[b] == op[b - 1]);
                }
            }
            assert forall|a: int| 0 <= a < np.len() implies npm.dom().contains(#[trigger] np[a].0) && npm[np[a].0] == np[a].1 by {
                if a < pos {
                    assert(np[a] == op[a]);
                    assert(pm.dom().contains(op[a].0));
                } else if a > pos {
                    assert(np[a] == op[a - 1]);
                    assert(pm.dom().contains(op[a - 1].0));
                }
            }
            assert forall|k: Seq<char>| #[trigger] npm.dom().contains(k) implies exists|a: int| 0 <= a < np.len() && np[a].0 == k by {
                if k == xp.0 {
                    assert(np[pos as int].0 == k);
                } else {
                    let a = choose|a: int| 0 <= a < op.len() && op[a].0 == k;
                    if a < pos {
                        assert(np[a] == op[a]);
                    } else {
                        assert(np[a + 1] == op[a]);
                    }
                }
            }
            assert forall|a: int, b: int| 0 <= a < b < np.len() implies #[trigger] np[a].0 != #[trigger] np[b].0 by {
                if a == pos {
                    assert(np[b] == op[b - 1]);
                    assert(pm.dom().contains(op[b - 1].0));
                } else if b == pos {
                    assert(np[a] == op[a]);
                    assert(pm.dom().contains(op[a].0));
                } else if b < pos {
                    assert(np[a] == op[a] && np[b] == op[b]);
                } else if a < pos {
                    assert(np[a] == op[a] && np[b] == op[b - 1]);
                } else {
                    assert(np[a] == op[a - 1] && np[b] == op[b - 1]);
                }
            }
            assert forall|k: Seq<char>| #[trigger] npm.dom().contains(k) <==> exists|j: int| 0 <= j < i + 1 && vp[j].0 == k by {
                if npm.dom().contains(k) && k != xp.0 {
                    assert(pm.dom().contains(k));
                }
                if exists|j: int| 0 <= j < i + 1 && vp[j].0 == k {
                    let j = choose|j: int| 0 <= j < i + 1 && vp[j].0 == k;
                    if j < i {
                        assert(pm.dom().contains(k));
                    }
                }
            }
            pm = npm;
        }
        i = i + 1;
    }
    proof {
        assert forall|k: Seq<char>| #[trigger] m.dom().contains(k) implies pm.dom().contains(k) by {
            let j = choose|j: int| 0 <= j < vp.len() && vp[j].0 == k;
            assert(exists|j2: int| 0 <= j2 < i && vp[j2].0 == k);
        }
        assert(pm =~= m);
    }
    out
}

pub open spec fn id_pairs(v: Seq<(u32, usize)>) -> Seq<(u32, nat)> {
    v.map_values(|e: (u32, usize)| (e.0, e.1 as nat))
}

pub open spec fn increasing(p: Seq<(u32, nat)>) -> bool {
    forall|i: int, j: int| 0 <= i < j < p.len() ==> (#[trigger] p[i]).0 < (#[trigger] p[j]).0
}

/// Add one tensor of unknown type `id` to a tally kept in id order.
fn count_id(v: &mut Vec<(u32, usize)>, id: u32, Ghost(m): Ghost<Map<u32, nat>>, Ghost(limit): Ghost<nat>)
    requires
        lists(id_pairs(old(v)@), m),
        increasing(id_pairs(old(v)@)),
        forall|k: u32| #[trigger] m.dom().contains(k) ==> 1 <= m[k] <= limit,
        limit < usize::MAX,
    ensures
        lists(id_pairs(final(v)@), bump(m, id)),
        increasing(id_pairs(final(v)@)),
{
    let ghost p0 = id_pairs(v@);
    let mut pos: usize = 0;
    while pos < v.len() && v[pos].0 < id
        invariant
            pos <= v.len(),
            v@ == old(v)@,
            p0 == id_pairs(v@),
            forall|j: int| 0 <= j < pos ==> (#[trigger] p0[j]).0 < id,
        decreases v.len() - pos,
    {
        pos = pos + 1;
    }
    let m1 = Ghost(bump(m, id));
    if pos < v.len() && v[pos].0 == id {
        let t = v[pos].1;
        assert(m.dom().contains(p0[pos as int].0));
        v.set(pos, (id, t + 1));
        proof {
            let p1 = id_pairs(v@);
            assert(p1 =~= p0.update(pos as int, (id, (t + 1) as nat)));
            assert forall|k: u32| #[trigger] m1@.dom().contains(k) implies exists|j: int| 0 <= j < p1.len() && p1[j].0 == k by {
                if k == id {
                    assert(p1[pos as int].0 == k);
                } else {
                    let j = choose|j: int| 0 <= j < p0.len() && p0[j].0 == k;
                    assert(p1[j].0 == k);
                }
            }
            assert forall|a: int, b: int| 0 <= a < b < p1.len() implies #[trigger] p1[a].0 != #[trigger] p1[b].0 by {
                assert(p0[a].0 < p0[b].0);
            }
            assert forall|a: int, b: int| 0 <= a < b < p1.len() implies (#[trigger] p1[a]).0 < (#[trigger] p1[b]).0 by {
                assert(p0[a].0 < p0[b].0);
            }
        }
    } else {
        proof {
            assert(!m.dom().contains(id)) by {
                if m.dom().contains(id) {
                    let j = choose|j: int| 0 <= j < p0.len() && p0[j].0 == id;
                    if j >= pos {
                        assert(p0[pos as int].0 <= p0[j].0);
                    }
                }
            }
        }
        v.insert(pos, (id, 1));
        proof {
            let p1 = id_pairs(v@);
            assert(p1 =~= p0.insert(pos as int, (id, 1nat)));
            assert forall|a: int, b: int| 0 <= a < b < p1.len() implies (#[trigger] p1[a]).0 < (#[trigger] p1[b]).0 by {
                if a == pos {
                    assert(p1[b] == p0[b - 1]);
                    assert(p0[pos as int].0 > id);
                    if b - 1 > pos {
                        assert(p0[pos as int].0 < p0[b - 1].0);
                    }
                } else if b == pos {
                    assert(p1[a] == p0[a]);
                } else if b < pos {
                    assert(p1[a] == p0[a] && p1[b] == p0[b]);
                } else if a < pos {
                    assert(p1[a] == p0[a] && p1[b] == p0[b - 1]);
                } else {
                    assert(p1[a] == p0[a - 1] && p1[b] == p0[b - 1]);
                }
            }
            assert forall|a: int| 0 <= a < p1.len() implies m1@.dom().contains(#[trigger] p1[a].0) && m1@[p1[a].0] == p1[a].1 by {
                if a < pos {
                    assert(p1[a] == p0[a]);
                } else if a > pos {
                    assert(p1[a] == p0[a - 1]);
                }
            }
            assert forall|k: u32| #[trigger] m1@.dom().contains(k) implies exists|a: int| 0 <= a < p1.len() && p1[a].0 == k by {
                if k == id {
                    assert(p1[pos as int].0 == k);
                } else {
                    let a = choose|a: int| 0 <= a < p0.len() && p0[a].0 == k;
                    if a < pos {
                        assert(p1[a] == p0[a]);
                    } else {
                        assert(p1[a + 1] == p0[a]);
                    }
                }
            }
        }
    }
}


// ---------------------------------------------------------------------------
// GGUF
// ---------------------------------------------------------------------------

/// The element count of a shape, or `None` when the product leaves 64 bits.
pub open spec fn elements_of(dims: Seq<u64>) -> Option<nat>
    decreases dims.len(),
{
    if dims.len() == 0 {
        Some(1)
    } else {
        match elements_of(dims.drop_last()) {
            None => None,
            Some(a) => if a * dims.last() > u64::MAX {
                None
            } else {
                Some((a * dims.last()) as nat)
            },
        }
    }
}

/// The element count, with `u64::MAX` standing for an overflow.
pub open spec fn element_count(dims: Seq<u64>) -> nat {
    match elements_of(dims) {
        Some(e) => e,
        None => u64::MAX as nat,
    }
}

pub open spec fn sat_add(a: nat, b: nat) -> nat {
    if a + b > u64::MAX {
        u64::MAX as nat
    } else {
        a + b
    }
}

pub open spec fn sat_mul(a: nat, b: nat) -> nat {
    if a * b > u64::MAX {
        u64::MAX as nat
    } else {
        a * b
    }
}

pub open spec fn overflow_msg(name: Seq<char>) -> Seq<char> {
    "tensor '"@ + name + "' declares dimensions that overflow a 64-bit element count"@
}

pub open spec fn block_msg(name: Seq<char>, e: nat, kind: Seq<char>, block: nat) -> Seq<char> {
    "tensor '"@ + name + "' has "@ + dec(e) + " elements, not a multiple of "@ + kind
        + "'s block size "@ + dec(block)
}

pub open spec fn offset_msg(name: Seq<char>) -> Seq<char> {
    "tensor '"@ + name + "' has an offset that overflows the file"@
}

/// What the tensor table adds up to, tensor by tensor, for data starting at
/// `ds`: (parameters, end of the described data, findings, tally of known
/// element types by name, tally of unknown type ids).
pub open spec fn gguf_scan(ts: Seq<(Seq<char>, Seq<u64>, u32, u64)>, ds: nat) -> (
    nat,
    nat,
    Seq<(Level, Seq<char>)>,
    Map<Seq<char>, nat>,
    Map<u32, nat>,
)
    decreases ts.len(),
{
    if ts.len() == 0 {
        (0, 0, seq![], Map::empty(), Map::empty())
    } else {
        let prev = gguf_scan(ts.drop_last(), ds);
        let t = ts.last();
        let e = element_count(t.1);
        if e == u64::MAX {
            (prev.0, prev.1, prev.2.push((Level::Error, overflow_msg(t.0))), prev.3, prev.4)
        } else {
            let pa = sat_add(prev.0, e);
            match ggml_type(t.2) {
                None => (pa, prev.1, prev.2, prev.3, bump(prev.4, t.2)),
                Some((kn, block, size)) => {
                    let ty = bump(prev.3, kn);
                    let fs = if e % block != 0 {
                        prev.2.push((Level::Warning, block_msg(t.0, e, kn, block)))
                    } else {
                        prev.2
                    };
                    let end: nat = (ds + t.3 + sat_mul(e / block, size)) as nat;
                    if ds + t.3 > u64::MAX || end > u64::MAX {
                        (pa, prev.1, fs.push((Level::Error, offset_msg(t.0))), ty, prev.4)
                    } else {
                        (pa, if end > prev.1 { end } else { prev.1 }, fs, ty, prev.4)
                    }
                },
            }
        }
    }
}

fn checked_product(dims: &Vec<u64>) -> (r: Option<u64>)
    ensures
        r matches Some(e) ==> elements_of(dims@) == Some(e as nat),
        r is None ==> elements_of(dims@) is None,
{
    let mut acc: u64 = 1;
    let mut ok = true;
    let mut i: usize = 0;
    assert(dims@.subrange(0, 0) =~= seq![]);
    while i < dims.len()
        invariant
            i <= dims.len(),
            ok ==> elements_of(dims@.subrange(0, i as int)) == Some(acc as nat),
            !ok ==> elements_of(dims@.subrange(0, i as int)) is None,
        decreases dims.len() - i,
    {
        assert(dims@.subrange(0, i + 1).drop_last() =~= dims@.subrange(0, i as int));
        if ok {
            match acc.checked_mul(dims[i]) {
                Some(v) => {
                    acc = v;
                },
                None => {
                    ok = false;
                },
            }
        }
        i = i + 1;
    }
    assert(dims@.subrange(0, i as int) =~= dims@);
    if ok {
        Some(acc)
    } else {
        None
    }
}

fn element_product(dims: &Vec<u64>) -> (r: u64)
    ensures
        r == element_count(dims@),
{
    match checked_product(dims) {
        Some(e) => e,
        None => u64::MAX,
    }
}

fn tensor_message(prefix: &str, name: &String, suffix: &str) -> (m: String)
    ensures
        m@ == prefix@ + name@ + suffix@,
{
    let mut m = String::new();
    m.append(prefix);
    m.append(name.as_str());
    m.append(suffix);
    m
}

/// Walk the tensor table: element counts, types, and where the data ends.
fn scan_tensors(ts: &Vec<TensorInfo>, ds: u64) -> (r: (u64, u64, Vec<Finding>, Vec<TypeCount>, Vec<(u32, usize)>))
    ensures
        ({
            let sc = gguf_scan(tensors_view(ts@), ds as nat);
            &&& r.0 == sc.0
            &&& r.1 == sc.1
            &&& findings_view(r.2@) == sc.2
            &&& lists(type_pairs(r.3@), sc.3)
            &&& lists(id_pairs(r.4@), sc.4)
            &&& increasing(id_pairs(r.4@))
        }),
{
    let ghost tv = tensors_view(ts@);
    let mut params: u64 = 0;
    let mut data_end: u64 = 0;
    let mut findings: Vec<Finding> = Vec::new();
    let mut counts: Vec<TypeCount> = Vec::new();
    let mut unknown: Vec<(u32, usize)> = Vec::new();
    let mut i: usize = 0;
    proof {
        assert(tv.subrange(0, 0) =~= seq![]);
        assert(findings_view(findings@) =~= seq![]);
        assert(type_pairs(counts@) =~= seq![]);
        assert(id_pairs(unknown@) =~= seq![]);
    }
    while i < ts.len()
        invariant
            i <= ts.len(),
            tv == tensors_view(ts@),
            ({
                let sc = gguf_scan(tv.subrange(0, i as int), ds as nat);
                &&& params == sc.0
                &&& data_end == sc.1
                &&& findings_view(findings@) == sc.2
                &&& lists(type_pairs(counts@), sc.3)
                &&& lists(id_pairs(unknown@), sc.4)
                &&& increasing(id_pairs(unknown@))
                &&& forall|k: Seq<char>| #[trigger] sc.3.dom().contains(k) ==> 1 <= sc.3[k] <= i
                &&& forall|k: u32| #[trigger] sc.4.dom().contains(k) ==> 1 <= sc.4[k] <= i
            }),
        decreases ts.len() - i,
    {
        let ghost prev = gguf_scan(tv.subrange(0, i as int), ds as nat);
        proof {
            assert(tv.subrange(0, i + 1).drop_last() =~= tv.subrange(0, i as int));
            assert(tv.subrange(0, i + 1).last() == tv[i as int]);
            assert(tv[i as int] == tensor_view(ts@[i as int]));
        }
        let ghost next = gguf_scan(tv.subrange(0, i + 1), ds as nat);
        let t = &ts[i];
        let elements = element_product(&t.dims);
        if elements == u64::MAX {
            let ghost fv = findings_view(findings@);
            findings.push(Finding { level: Level::Error, message: tensor_message("tensor '", &t.name, "' declares dimensions that overflow a 64-bit element count") });
            proof {
                assert(findings_view(findings@) =~= fv.push((Level::Error, overflow_msg(t.name@))));
            }
        } else {
            params = params.saturating_add(elements);
            match GgmlType::from_id(t.kind) {
                None => {
                    count_id(&mut unknown, t.kind, Ghost(prev.4), Ghost(i as nat));
                },
                Some(kind) => {
                    count_type(&mut counts, kind.name, Ghost(prev.3), Ghost(i as nat));
                    if elements % kind.block != 0 {
                        let mut m = tensor_message("tensor '", &t.name, "' has ");
                        m.append(dec_string(elements).as_str());
                        m.append(" elements, not a multiple of ");
                        m.append(kind.name);
                        m.append("'s block size ");
                        m.append(dec_string(kind.block).as_str());
                        let ghost fv = findings_view(findings@);
                        let ghost mv = m@;
                        findings.push(Finding { level: Level::Warning, message: m });
                        proof {
                            assert(mv == block_msg(t.name@, elements as nat, kind.name@, kind.block as nat));
                            assert(findings_view(findings@) =~= fv.push((Level::Warning, mv)));
                        }
                    }
                    let bytes = match (elements / kind.block).checked_mul(kind.size) {
                        Some(b) => b,
                        None => u64::MAX,
                    };
                    let end = match ds.checked_add(t.offset) {
                        Some(start) => start.checked_add(bytes),
                        None => None,
                    };
                    match end {
                        Some(end) => {
                            if end > data_end {
                                data_end = end;
                            }
                        },
                        None => {
                            let ghost fv = findings_view(findings@);
                            findings.push(Finding { level: Level::Error, message: tensor_message("tensor '", &t.name, "' has an offset that overflows the file") });
                            proof {
                                assert(findings_view(findings@) =~= fv.push((Level::Error, offset_msg(t.name@))));
                            }
                        },
                    }
                },
            }
        }
        proof {
            assert(params == next.0);
            assert(data_end == next.1);
            assert(findings_view(findings@) == next.2);
            assert forall|k: Seq<char>| #[trigger] next.3.dom().contains(k) implies 1 <= next.3[k] <= i + 1 by {
                if prev.3.dom().contains(k) {
                }
            }
            assert forall|k: u32| #[trigger] next.4.dom().contains(k) implies 1 <= next.4[k] <= i + 1 by {
                if prev.4.dom().contains(k) {
                }
            }
        }
        i = i + 1;
    }
    assert(tv.subrange(0, i as int) =~= tv);
    (params, data_end, findings, counts, unknown)
}


pub open spec fn version_msg(v: u32) -> Seq<char> {
    "GGUF version "@ + dec(v as nat) + " is newer than this build understands (1-3); reading it as version 3"@
}

pub open spec fn count_msg(count: nat, what: Seq<char>, rem: nat) -> Seq<char> {
    "header claims "@ + dec(count) + what + ", which cannot fit in the "@ + dec(rem)
        + " bytes that follow it"@
}

pub open spec fn align_msg(a: nat) -> Seq<char> {
    "general.alignment is "@ + dec(a) + ", which is not a power of two"@
}

pub open spec fn runs_msg(end: nat, n: nat) -> Seq<char> {
    "the header runs to "@ + dec(end) + " bytes, past the end of a "@ + dec(n) + "-byte file"@
}

pub open spec fn unknown_msg(id: u32, count: nat) -> Seq<char> {
    dec(count) + " tensor(s) use element type "@ + dec(id as nat)
        + ", which this build does not know; their size could not be checked"@
}

pub open spec fn short_file_msg(end: nat, n: nat) -> Seq<char> {
    "the file is "@ + human_text((end - n) as nat) + " short: the tensor table describes "@
        + human_text(end) + " of data but the file ends at "@ + human_text(n)
        + ". The download did not finish."@
}

pub open spec fn trailing_msg(extra: nat) -> Seq<char> {
    human_text(extra) + " of trailing bytes after the last tensor"@
}

pub open spec fn version_findings(v: u32) -> Seq<(Level, Seq<char>)> {
    if 1 <= v <= 3 {
        seq![]
    } else {
        seq![(Level::Warning, version_msg(v))]
    }
}

pub open spec fn unknown_findings(ul: Seq<(u32, nat)>) -> Seq<(Level, Seq<char>)> {
    ul.map_values(|e: (u32, nat)| (Level::Warning, unknown_msg(e.0, e.1)))
}

/// What follows the per-tensor findings: a file that stops before its data
/// does, or a lot of bytes after the last tensor.
pub open spec fn tail_findings(end: nat, n: nat, align: nat) -> Seq<(Level, Seq<char>)> {
    if end > n {
        seq![(Level::Error, short_file_msg(end, n))]
    } else if n > end && n - end > align {
        seq![(Level::Note, trailing_msg((n - end) as nat))]
    } else {
        seq![]
    }
}

pub open spec fn no_tensor_findings(tc: u64) -> Seq<(Level, Seq<char>)> {
    if tc == 0 {
        seq![(Level::Warning, "the file declares no tensors"@)]
    } else {
        seq![]
    }
}

/// The fixed part of a GGUF header: version, tensor count, metadata count.
pub open spec fn gguf_header(h: Seq<u8>, n: nat) -> Result<(u32, u64, u64), Seq<char>> {
    match rd_u32(h, n, 4) {
        Err(e) => Err(e),
        Ok((v, _)) => match rd_u64(h, n, 8) {
            Err(e) => Err(e),
            Ok((tc, _)) => match rd_u64(h, n, 16) {
                Err(e) => Err(e),
                Ok((mc, _)) => Ok((v, tc, mc)),
            },
        },
    }
}

pub open spec fn meta_text(es: Seq<(Seq<char>, Option<Seq<char>>)>, k: Seq<char>) -> Option<Seq<char>> {
    match meta_get(es, k) {
        Some(Some(t)) => Some(t),
        _ => None,
    }
}

/// A metadata value read as a 64-bit unsigned number.
pub open spec fn meta_number(es: Seq<(Seq<char>, Option<Seq<char>>)>, k: Seq<char>) -> Option<nat> {
    match meta_text(es, k) {
        Some(t) => match parse_nat(t) {
            Some(v) => if v <= u64::MAX {
                Some(v)
            } else {
                None
            },
            None => None,
        },
        None => None,
    }
}

pub open spec fn gguf_alignment(es: Seq<(Seq<char>, Option<Seq<char>>)>) -> nat {
    match meta_number(es, "general.alignment"@) {
        Some(a) => a,
        None => 32,
    }
}

pub open spec fn is_pow2(a: nat) -> bool
    decreases a,
{
    if a == 0 {
        false
    } else if a == 1 {
        true
    } else {
        a % 2 == 0 && is_pow2(a / 2)
    }
}

/// `x` rounded up to a multiple of `a`.
pub open spec fn align_up(x: nat, a: nat) -> nat {
    (((x + a - 1) / (a as int)) * a) as nat
}

pub open spec fn keeps_header(r: Report, path: Seq<char>, n: nat, v: u32, tc: u64, mc: u64, f: Format) -> bool {
    &&& r.path@ == path
    &&& r.format == f
    &&& r.file_size == n
    &&& r.version == Some(v)
    &&& r.tensor_count == tc
    &&& r.metadata_count == mc
}

pub open spec fn no_metadata_read(r: Report) -> bool {
    r.architecture is None && r.name is None && r.context_length is None
}

pub open spec fn no_tensors_read(r: Report) -> bool {
    r.parameters == 0 && r.tensor_types@.len() == 0 && r.data_bytes == 0
}

/// What the metadata says about the model: architecture, name, and the
/// context length filed under the architecture's name.
pub open spec fn reads_metadata(r: Report, es: Seq<(Seq<char>, Option<Seq<char>>)>) -> bool {
    &&& opt_text(r.architecture) == meta_text(es, "general.architecture"@)
    &&& opt_text(r.name) == meta_text(es, "general.name"@)
    &&& r.context_length == match meta_text(es, "general.architecture"@) {
        Some(a) => match meta_number(es, a + ".context_length"@) {
            Some(v) => Some(v as u64),
            None => None,
        },
        None => None,
    }
}


/// The last stage of a GGUF report, once the tensor table has been read:
/// where the data starts, and what the tensors add up to.
pub open spec fn tensor_data_report(
    r: Report,
    ts: Seq<(Seq<char>, Seq<u64>, u32, u64)>,
    q2: nat,
    align: nat,
    n: nat,
    tc: u64,
    vf: Seq<(Level, Seq<char>)>,
) -> bool {
    let fs = findings_view(r.findings@);
    let ds = align_up(q2, align);
    if ds > n {
        fs == vf.push((Level::Error, runs_msg(q2, n))) && no_tensors_read(r)
    } else {
        let sc = gguf_scan(ts, ds);
        &&& r.parameters == sc.0
        &&& r.data_bytes == if sc.1 > ds {
            (sc.1 - ds) as nat
        } else {
            0
        }
        &&& lists(type_pairs(r.tensor_types@), sc.3)
        &&& ranked(type_pairs(r.tensor_types@))
        &&& exists|ul: Seq<(u32, nat)>|
            lists(ul, sc.4) && increasing(ul) && fs == vf + sc.2 + unknown_findings(ul)
                + tail_findings(sc.1, n, align) + no_tensor_findings(tc)
    }
}

/// Fields a stage of the report leaves as they were.
pub open spec fn same_identity(a: Report, b: Report) -> bool {
    &&& a.path == b.path
    &&& a.format == b.format
    &&& a.file_size == b.file_size
    &&& a.version == b.version
    &&& a.tensor_count == b.tensor_count
    &&& a.metadata_count == b.metadata_count
    &&& a.architecture == b.architecture
    &&& a.name == b.name
    &&& a.context_length == b.context_length
}

/// The report a GGUF file gets, stage by stage: the fixed header, the
/// plausibility of its counts, the metadata, the alignment, the tensor
/// table, where the data starts, and what the tensors add up to.
pub open spec fn gguf_report(h: Seq<u8>, n: nat, path: Seq<char>, r: Report) -> bool {
    match gguf_header(h, n) {
        Err(_) => false,
        Ok((version, tc, mc)) => {
            let vf = version_findings(version);
            let fs = findings_view(r.findings@);
            let rem = (n - 24) as nat;
            &&& keeps_header(r, path, n, version, tc, mc, Format::Gguf)
            &&& if mc * MIN_METADATA_BYTES > rem {
                fs == vf.push((Level::Error, count_msg(mc as nat, " metadata entries"@, rem)))
                    && no_metadata_read(r) && no_tensors_read(r)
            } else if tc * MIN_TENSOR_INFO_BYTES > rem {
                fs == vf.push((Level::Error, count_msg(tc as nat, " tensors"@, rem)))
                    && no_metadata_read(r) && no_tensors_read(r)
            } else {
                match rd_metadata(h, n, 24, mc as nat) {
                    Err(e) => fs == vf.push((Level::Error, "metadata is malformed: "@ + e))
                        && no_metadata_read(r) && no_tensors_read(r),
                    Ok((es, q)) => {
                        let align = gguf_alignment(es);
                        &&& reads_metadata(r, es)
                        &&& if !is_pow2(align) {
                            fs == vf.push((Level::Error, align_msg(align))) && no_tensors_read(r)
                        } else {
                            match rd_tensors(h, n, q, tc as nat) {
                                Err(e) => fs == vf.push(
                                    (Level::Error, "tensor table is malformed: "@ + e),
                                ) && no_tensors_read(r),
                                Ok((ts, q2)) => tensor_data_report(r, ts, q2, align, n, tc, vf),
                            }
                        }
                    },
                }
            }
        },
    }
}

fn is_power_of_two(a: u64) -> (r: bool)
    ensures
        r == is_pow2(a as nat),
{
    if a == 0 {
        return false;
    }
    let mut x = a;
    while x > 1 && x % 2 == 0
        invariant
            x >= 1,
            is_pow2(a as nat) == is_pow2(x as nat),
        decreases x,
    {
        x = x / 2;
    }
    x == 1
}

fn prefixed(prefix: &str, e: String) -> (m: String)
    ensures
        m@ == prefix@ + e@,
{
    let mut m = String::new();
    m.append(prefix);
    m.append(e.as_str());
    m
}

fn count_message(count: u64, what: &str, rem: u64) -> (m: String)
    ensures
        m@ == count_msg(count as nat, what@, rem as nat),
{
    let mut m = String::new();
    m.append("header claims ");
    m.append(dec_string(count).as_str());
    m.append(what);
    m.append(", which cannot fit in the ");
    m.append(dec_string(rem).as_str());
    m.append(" bytes that follow it");
    m
}

fn text_value(meta: &Vec<(String, Option<String>)>, key: &str) -> (r: Option<String>)
    ensures
        opt_text(r) == meta_text(meta_view(meta@), key@),
{
    match meta_find(meta, key) {
        None => None,
        Some(i) => match &meta[i].1 {
            Some(t) => Some(t.clone()),
            None => None,
        },
    }
}

fn number_value(meta: &Vec<(String, Option<String>)>, key: &str) -> (r: Option<u64>)
    ensures
        r matches Some(v) ==> meta_number(meta_view(meta@), key@) == Some(v as nat),
        r is None ==> meta_number(meta_view(meta@), key@) is None,
{
    match text_value(meta, key) {
        None => None,
        Some(t) => parse_u64(&chars_of(t.as_str())),
    }
}


/// The stage of a GGUF check after the tensor table has been read.
fn finish_gguf(
    report: &mut Report,
    tensors: &Vec<TensorInfo>,
    header_end: u64,
    alignment: u64,
    Ghost(vf): Ghost<Seq<(Level, Seq<char>)>>,
)
    requires
        findings_view(old(report).findings@) == vf,
        no_tensors_read(*old(report)),
        is_pow2(alignment as nat),
        header_end <= old(report).file_size,
    ensures
        same_identity(*final(report), *old(report)),
        tensor_data_report(*final(report), tensors_view(tensors@), header_end as nat, alignment as nat, old(report).file_size as nat, old(report).tensor_count, vf),
{
    let n = report.file_size;
    let tensor_count = report.tensor_count;
    assert(alignment >= 1);
    let x: u128 = header_end as u128 + alignment as u128 - 1;
    let qd: u128 = x / alignment as u128;
    assert(qd * alignment <= x) by (nonlinear_arith)
        requires
            qd == x / alignment as u128,
            alignment >= 1,
    ;
    let start: u128 = qd * alignment as u128;
    if start > n as u128 {
        let mut m = String::new();
        m.append("the header runs to ");
        m.append(dec_string(header_end).as_str());
        m.append(" bytes, past the end of a ");
        m.append(dec_string(n).as_str());
        m.append("-byte file");
        report.add(Level::Error, m);
        return;
    }
    let data_start = start as u64;
    assert(start == align_up(header_end as nat, alignment as nat));
    let ghost ts = tensors_view(tensors@);
    let ghost sc = gguf_scan(ts, data_start as nat);
    let (params, data_end, found, counts, unknown) = scan_tensors(&tensors, data_start);
    report.parameters = params;
    report.data_bytes = if data_end > data_start { data_end - data_start } else { 0 };
    report.tensor_types = rank_types(&counts, Ghost(sc.3));
    let mut i: usize = 0;
    while i < found.len()
        invariant
            i <= found.len(),
            findings_view(report.findings@) == vf + findings_view(found@).subrange(0, i as int),
            same_identity(*report, *old(report)),
            n == report.file_size,
            tensor_count == report.tensor_count,
            report.parameters == params,
            report.data_bytes == (if data_end > data_start { data_end - data_start } else { 0 }),
            lists(type_pairs(report.tensor_types@), sc.3),
            ranked(type_pairs(report.tensor_types@)),
        decreases found.len() - i,
    {
        let ghost before = findings_view(report.findings@);
        report.add(found[i].level, found[i].message.clone());
        proof {
            assert(findings_view(found@)[i as int] == (found@[i as int].level, found@[i as int].message@));
            assert(findings_view(found@).subrange(0, i + 1) =~= findings_view(found@).subrange(0, i as int).push(findings_view(found@)[i as int]));
        }
        i = i + 1;
    }
    assert(findings_view(found@).subrange(0, i as int) =~= findings_view(found@));
    let ghost ul = id_pairs(unknown@);
    let ghost base = findings_view(report.findings@);
    let mut j: usize = 0;
    while j < unknown.len()
        invariant
            j <= unknown.len(),
            ul == id_pairs(unknown@),
            findings_view(report.findings@) == base + unknown_findings(ul).subrange(0, j as int),
            same_identity(*report, *old(report)),
            n == report.file_size,
            tensor_count == report.tensor_count,
            report.parameters == params,
            report.data_bytes == (if data_end > data_start { data_end - data_start } else { 0 }),
            lists(type_pairs(report.tensor_types@), sc.3),
            ranked(type_pairs(report.tensor_types@)),
        decreases unknown.len() - j,
    {
        let (id, cnt) = unknown[j];
        let mut m = dec_string(cnt as u64);
        m.append(" tensor(s) use element type ");
        m.append(dec_string(id as u64).as_str());
        m.append(", which this build does not know; their size could not be checked");
        report.add(Level::Warning, m);
        proof {
            assert(unknown_findings(ul)[j as int] == (Level::Warning, unknown_msg(id, cnt as nat)));
            assert(unknown_findings(ul).subrange(0, j + 1) =~= unknown_findings(ul).subrange(0, j as int).push(unknown_findings(ul)[j as int]));
        }
        j = j + 1;
    }
    assert(unknown_findings(ul).subrange(0, j as int) =~= unknown_findings(ul));
    if data_end > n {
        let mut m = String::new();
        m.append("the file is ");
        m.append(human(data_end - n).as_str());
        m.append(" short: the tensor table describes ");
        m.append(human(data_end).as_str());
        m.append(" of data but the file ends at ");
        m.append(human(n).as_str());
        m.append(". The download did not finish.");
        report.add(Level::Error, m);
    } else if n > data_end && n - data_end > alignment {
        let mut m = human(n - data_end);
        m.append(" of trailing bytes after the last tensor");
        report.add(Level::Note, m);
    }
    if tensor_count == 0 {
        report.add(Level::Warning, "the file declares no tensors".to_owned());
    }
    proof {
        let fs = findings_view(report.findings@);
        assert(fs =~= vf + sc.2 + unknown_findings(ul) + tail_findings(sc.1, n as nat, alignment as nat) + no_tensor_findings(tensor_count));
    }
}

/// Check a GGUF file from its opening bytes `head` and its real size.
///
/// `Err` is a header that cannot be read at all; everything else is a report,
/// whose findings say what is wrong.
pub fn gguf(head: &[u8], path: String, file_size: u64) -> (r: Result<Report, String>)
    requires
        4 <= file_size,
    ensures
        r is Err <==> gguf_header(head@, file_size as nat) is Err,
        r matches Err(e) ==> gguf_header(head@, file_size as nat) == Err::<(u32, u64, u64), Seq<char>>(e@),
        r matches Ok(rep) ==> gguf_report(head@, file_size as nat, path@, rep),
{
    let h = head;
    let n = file_size;
    let ghost path_v = path@;
    let (version, p1) = read_u32(h, n, 4)?;
    let (tensor_count, p2) = read_u64(h, n, p1)?;
    let (metadata_count, p3) = read_u64(h, n, p2)?;
    let mut report = Report {
        path,
        format: Format::Gguf,
        file_size: n,
        version: Some(version),
        tensor_count,
        metadata_count,
        architecture: None,
        name: None,
        context_length: None,
        parameters: 0,
        tensor_types: Vec::new(),
        data_bytes: 0,
        findings: Vec::new(),
    };
    proof {
        assert(findings_view(report.findings@) =~= seq![]);
    }
    if !(1 <= version && version <= 3) {
        let mut m = String::new();
        m.append("GGUF version ");
        m.append(dec_string(version as u64).as_str());
        m.append(" is newer than this build understands (1-3); reading it as version 3");
        report.add(Level::Warning, m);
    }
    let ghost vf = version_findings(version);
    assert(findings_view(report.findings@) =~= vf);
    let remaining = n - p3;
    if metadata_count > remaining / MIN_METADATA_BYTES {
        report.add(Level::Error, count_message(metadata_count, " metadata entries", remaining));
        return Ok(report);
    }
    if tensor_count > remaining / MIN_TENSOR_INFO_BYTES {
        report.add(Level::Error, count_message(tensor_count, " tensors", remaining));
        return Ok(report);
    }
    let (meta, q) = match read_metadata(h, n, p3, metadata_count) {
        Ok(x) => x,
        Err(e) => {
            report.add(Level::Error, prefixed("metadata is malformed: ", e));
            return Ok(report);
        },
    };
    let ghost es = meta_view(meta@);
    report.architecture = text_value(&meta, "general.architecture");
    report.name = text_value(&meta, "general.name");
    report.context_length = match &report.architecture {
        Some(arch) => {
            let key = crate::text::concat2(arch.as_str(), ".context_length");
            number_value(&meta, key.as_str())
        },
        None => None,
    };
    let alignment = match number_value(&meta, "general.alignment") {
        Some(a) => a,
        None => 32,
    };
    assert(reads_metadata(report, es));
    if !is_power_of_two(alignment) {
        let mut m = String::new();
        m.append("general.alignment is ");
        m.append(dec_string(alignment).as_str());
        m.append(", which is not a power of two");
        report.add(Level::Error, m);
        return Ok(report);
    }
    let (tensors, header_end) = match read_tensor_infos(h, n, q, tensor_count) {
        Ok(x) => x,
        Err(e) => {
            report.add(Level::Error, prefixed("tensor table is malformed: ", e));
            return Ok(report);
        },
    };
    finish_gguf(&mut report, &tensors, header_end, alignment, Ghost(vf));
    Ok(report)
}


/// The format a file's opening bytes announce: the GGUF magic, or the `{`
/// that opens a safetensors JSON header right after its length.
pub open spec fn detect_format(h: Seq<u8>, n: nat) -> Result<Format, Seq<char>> {
    if !can_read(h, n, 0, 8) {
        Err("file is too small to be a model file"@)
    } else if h[0] == 71u8 && h[1] == 71u8 && h[2] == 85u8 && h[3] == 70u8 {
        Ok(Format::Gguf)
    } else if can_read(h, n, 8, 1) && h[8] == 123u8 {
        Ok(Format::Safetensors)
    } else {
        Err("not a GGUF or safetensors file"@)
    }
}

/// Identify the format from the file's opening bytes rather than its name.
pub fn detect(head: &[u8], file_size: u64) -> (r: Result<Format, String>)
    ensures
        r matches Ok(f) ==> detect_format(head@, file_size as nat) == Ok::<Format, Seq<char>>(f),
        r matches Err(e) ==> detect_format(head@, file_size as nat) == Err::<Format, Seq<char>>(e@),
{
    if file_size < 8 || head.len() < 8 {
        return Err("file is too small to be a model file".to_owned());
    }
    if head[0] == 71u8 && head[1] == 71u8 && head[2] == 85u8 && head[3] == 70u8 {
        return Ok(Format::Gguf);
    }
    if file_size >= 9 && head.len() >= 9 && head[8] == 123u8 {
        return Ok(Format::Safetensors);
    }
    Err("not a GGUF or safetensors file".to_owned())
}

// ---------------------------------------------------------------------------
// safetensors
// ---------------------------------------------------------------------------

/// What the eight-byte length prefix of a safetensors file leads to: a
/// report that stops there, or the span of bytes holding the JSON header.
pub enum HeaderSpan {
    Refused(Report),
    Json { start: u64, end: u64 },
}

/// One entry of a safetensors JSON header, reduced to what the check reads.
pub struct HeaderEntry {
    pub name: String,
    /// The entry's `dtype` when it is a string; empty otherwise.
    pub dtype: String,
    /// The members of `shape` that are unsigned 64-bit numbers.
    pub shape: Vec<u64>,
    /// The members of `data_offsets` that are unsigned 64-bit numbers.
    pub offsets: Vec<u64>,
    /// The number of fields when the entry is an object.
    pub fields: Option<u64>,
}

/// A safetensors JSON header as parsed: not JSON, JSON but not an object,
/// or an object's entries in the order the parser lists them.
pub enum Header {
    Invalid(String),
    NotObject,
    Entries(Vec<HeaderEntry>),
}

pub open spec fn entry_view(e: HeaderEntry) -> (Seq<char>, Seq<char>, Seq<u64>, Seq<u64>, Option<u64>) {
    (e.name@, e.dtype@, e.shape@, e.offsets@, e.fields)
}

pub open spec fn entries_view(es: Seq<HeaderEntry>) -> Seq<(Seq<char>, Seq<char>, Seq<u64>, Seq<u64>, Option<u64>)> {
    es.map_values(|e: HeaderEntry| entry_view(e))
}

/// `Header` as a value.
pub enum HeaderView {
    Invalid(Seq<char>),
    NotObject,
    Entries(Seq<(Seq<char>, Seq<char>, Seq<u64>, Seq<u64>, Option<u64>)>),
}

pub open spec fn header_view(h: Header) -> HeaderView {
    match h {
        Header::Invalid(e) => HeaderView::Invalid(e@),
        Header::NotObject => HeaderView::NotObject,
        Header::Entries(es) => HeaderView::Entries(entries_view(es@)),
    }
}

/// The members of an array that are unsigned 64-bit numbers, in order.
pub open spec fn u64s(items: Seq<JsonView>) -> Seq<u64>
    decreases items.len(),
{
    if items.len() == 0 {
        seq![]
    } else {
        let r = u64s(items.drop_last());
        match as_u64(items.last()) {
            Some(n) => r.push(n),
            None => r,
        }
    }
}

/// The unsigned 64-bit members of a member that is an array; none otherwise.
pub open spec fn u64_members(v: Option<JsonView>) -> Seq<u64> {
    match v {
        Some(JsonView::Array(items)) => u64s(items),
        _ => seq![],
    }
}

/// What the check reads of one header entry.
pub open spec fn entry_of(name: Seq<char>, v: JsonView) -> (Seq<char>, Seq<char>, Seq<u64>, Seq<u64>, Option<u64>) {
    (
        name,
        match text_member(v, "dtype"@) {
            Some(s) => s,
            None => seq![],
        },
        u64_members(member(v, "shape"@)),
        u64_members(member(v, "data_offsets"@)),
        match v {
            JsonView::Object(ms) => Some(ms.len() as u64),
            _ => None,
        },
    )
}

/// What a safetensors header says, from what its JSON reads as: not JSON,
/// not an object, or the object's entries in order.
pub open spec fn header_spec(j: Result<JsonView, Seq<char>>) -> HeaderView {
    match j {
        Err(e) => HeaderView::Invalid(e),
        Ok(JsonView::Object(ms)) => HeaderView::Entries(
            ms.map_values(|m: (Seq<char>, JsonView)| entry_of(m.0, m.1)),
        ),
        Ok(_) => HeaderView::NotObject,
    }
}

fn u64_list(v: Option<&Json>) -> (r: Vec<u64>)
    ensures
        r@ == u64_members(match v {
            Some(x) => Some(json_view(*x)),
            None => None,
        }),
{
    match v {
        Some(Json::Array(items)) => {
            let ghost vs = views(items@);
            proof {
                lemma_views(items@);
            }
            let mut out: Vec<u64> = Vec::new();
            let mut i: usize = 0;
            assert(vs.take(0) =~= seq![]);
            while i < items.len()
                invariant
                    i <= items.len(),
                    vs == views(items@),
                    vs.len() == items@.len(),
                    forall|k: int| 0 <= k < items@.len() ==> #[trigger] vs[k] == json_view(items@[k]),
                    out@ == u64s(vs.take(i as int)),
                decreases items.len() - i,
            {
                assert(vs.take(i + 1).drop_last() =~= vs.take(i as int));
                assert(vs.take(i + 1).last() == json_view(items@[i as int]));
                match crate::json::number_u64(&items[i]) {
                    Some(n) => out.push(n),
                    None => {},
                }
                i = i + 1;
            }
            assert(vs.take(i as int) =~= vs);
            out
        },
        _ => Vec::new(),
    }
}

fn header_entry(name: &String, v: &Json) -> (e: HeaderEntry)
    ensures
        entry_view(e) == entry_of(name@, json_view(*v)),
{
    let dtype = match crate::json::get_text(v, "dtype") {
        Some(s) => s.clone(),
        None => String::new(),
    };
    let shape = u64_list(crate::json::get(v, "shape"));
    let offsets = u64_list(crate::json::get(v, "data_offsets"));
    let fields = match v {
        Json::Object(ms) => {
            proof {
                lemma_member_views(ms@);
            }
            Some(ms.len() as u64)
        },
        _ => None,
    };
    HeaderEntry { name: name.clone(), dtype, shape, offsets, fields }
}

/// The header a safetensors file's JSON describes.
pub fn header_of(j: &Result<Json, String>) -> (h: Header)
    ensures
        header_view(h) == header_spec(json_result(*j)),
{
    match j {
        Err(e) => Header::Invalid(e.clone()),
        Ok(Json::Object(ms)) => {
            let ghost vs = member_views(ms@);
            proof {
                lemma_member_views(ms@);
            }
            let mut out: Vec<HeaderEntry> = Vec::new();
            let mut i: usize = 0;
            while i < ms.len()
                invariant
                    i <= ms.len(),
                    vs == member_views(ms@),
                    vs.len() == ms@.len(),
                    forall|k: int| 0 <= k < ms@.len() ==> #[trigger] vs[k] == (ms@[k].0@, json_view(ms@[k].1)),
                    out@.len() == i,
                    forall|k: int| 0 <= k < i ==> entry_view(#[trigger] out@[k]) == entry_of(vs[k].0, vs[k].1),
                decreases ms.len() - i,
            {
                let e = header_entry(&ms[i].0, &ms[i].1);
                out.push(e);
                i = i + 1;
            }
            assert(entries_view(out@) =~= vs.map_values(|m: (Seq<char>, JsonView)| entry_of(m.0, m.1)));
            Header::Entries(out)
        },
        Ok(_) => Header::NotObject,
    }
}

pub open spec fn too_large_msg(hl: nat, n: nat) -> Seq<char> {
    "the header claims to be "@ + human_text(hl) + " long, which a "@ + dec(n) + "-byte file cannot hold"@
}

/// What the length prefix of a safetensors file allows.
pub open spec fn header_span(h: Seq<u8>, n: nat) -> Result<Result<(nat, nat), Seq<(Level, Seq<char>)>>, Seq<char>> {
    match rd_u64(h, n, 0) {
        Err(e) => Err(e),
        Ok((hl, _)) => if hl > MAX_HEADER_BYTES || hl + 8 > n {
            Ok(Err(seq![(Level::Error, too_large_msg(hl as nat, n))]))
        } else if 8 + hl > h.len() {
            Ok(Err(seq![(Level::Error, "the header is shorter than it claims — the file is truncated"@)]))
        } else {
            Ok(Ok((8nat, 8 + hl as nat)))
        },
    }
}

pub open spec fn plain_report(r: Report, path: Seq<char>, n: nat) -> bool {
    &&& r.path@ == path
    &&& r.format == Format::Safetensors
    &&& r.file_size == n
    &&& r.version is None
    &&& no_metadata_read(r)
}

fn empty_report(path: String, format: Format, file_size: u64) -> (r: Report)
    ensures
        r.path@ == path@,
        r.format == format,
        r.file_size == file_size,
        r.version is None,
        r.tensor_count == 0,
        r.metadata_count == 0,
        no_metadata_read(r),
        no_tensors_read(r),
        findings_view(r.findings@) == Seq::<(Level, Seq<char>)>::empty(),
{
    let r = Report {
        path,
        format,
        file_size,
        version: None,
        tensor_count: 0,
        metadata_count: 0,
        architecture: None,
        name: None,
        context_length: None,
        parameters: 0,
        tensor_types: Vec::new(),
        data_bytes: 0,
        findings: Vec::new(),
    };
    assert(findings_view(r.findings@) =~= seq![]);
    r
}

/// Read the length prefix of a safetensors file and decide whether its JSON
/// header can be read: `Json` gives the byte range of the header within
/// `head`; `Refused` is the finished report when it cannot.
pub fn safetensors_span(head: &[u8], path: String, file_size: u64) -> (r: Result<HeaderSpan, String>)
    ensures
        r is Err <==> header_span(head@, file_size as nat) is Err,
        r matches Err(e) ==> header_span(head@, file_size as nat) == Err::<Result<(nat, nat), Seq<(Level, Seq<char>)>>, Seq<char>>(e@),
        r matches Ok(HeaderSpan::Json { start, end }) ==> header_span(head@, file_size as nat) == Ok::<Result<(nat, nat), Seq<(Level, Seq<char>)>>, Seq<char>>(Ok::<(nat, nat), Seq<(Level, Seq<char>)>>((start as nat, end as nat))) && start <= end <= head.len(),
        r matches Ok(HeaderSpan::Refused(rep)) ==> header_span(head@, file_size as nat) == Ok::<Result<(nat, nat), Seq<(Level, Seq<char>)>>, Seq<char>>(Err::<(nat, nat), Seq<(Level, Seq<char>)>>(findings_view(rep.findings@)))
            && plain_report(rep, path@, file_size as nat) && rep.tensor_count == 0 && rep.metadata_count == 0 && no_tensors_read(rep),
{
    let (header_len, _) = read_u64(head, file_size, 0)?;
    if header_len > MAX_HEADER_BYTES || header_len > file_size - 8 {
        let mut report = empty_report(path, Format::Safetensors, file_size);
        let mut m = String::new();
        m.append("the header claims to be ");
        m.append(human(header_len).as_str());
        m.append(" long, which a ");
        m.append(dec_string(file_size).as_str());
        m.append("-byte file cannot hold");
        report.add(Level::Error, m);
        return Ok(HeaderSpan::Refused(report));
    }
    if header_len > (head.len() as u64) - 8 {
        let mut report = empty_report(path, Format::Safetensors, file_size);
        report.add(Level::Error, "the header is shorter than it claims — the file is truncated".to_owned());
        return Ok(HeaderSpan::Refused(report));
    }
    Ok(HeaderSpan::Json { start: 8, end: 8 + header_len })
}

/// `{:?}` of a list of numbers: `[4, 8]`.
pub open spec fn list_text(s: Seq<u64>) -> Seq<char> {
    "["@ + list_items(s) + "]"@
}

pub open spec fn list_items(s: Seq<u64>) -> Seq<char>
    decreases s.len(),
{
    if s.len() == 0 {
        seq![]
    } else if s.len() == 1 {
        dec(s[0] as nat)
    } else {
        list_items(s.drop_last()) + ", "@ + dec(s.last() as nat)
    }
}

pub open spec fn quoted(name: Seq<char>) -> Seq<char> {
    "tensor '"@ + name + "'"@
}

pub open spec fn span_msg(name: Seq<char>, b: nat, e: nat) -> Seq<char> {
    quoted(name) + " starts at "@ + dec(b) + " and ends at "@ + dec(e)
}

pub open spec fn beyond_msg(name: Seq<char>, e: nat, data_len: nat) -> Seq<char> {
    quoted(name) + " ends at "@ + dec(e) + " of the data region, which is only "@ + dec(data_len)
        + " bytes"@
}

pub open spec fn size_msg(name: Seq<char>, dtype: Seq<char>, shape: Seq<u64>, expected: nat, span: nat) -> Seq<char> {
    quoted(name) + " is "@ + dtype + list_text(shape) + ", which needs "@ + dec(expected)
        + " bytes, but its offsets span "@ + dec(span)
}

pub open spec fn dtype_msg(name: Seq<char>, dtype: Seq<char>) -> Seq<char> {
    quoted(name) + " uses dtype '"@ + dtype
        + "', which this build does not know; its size could not be checked"@
}

pub open spec fn overlap_msg(a: Seq<char>, b: Seq<char>) -> Seq<char> {
    "tensors '"@ + a + "' and '"@ + b + "' overlap in the data region"@
}

/// What the header's entries add up to, entry by entry, for a data region of
/// `data_len` bytes: (tensor count, metadata field count, parameters, end of
/// the furthest tensor, findings, tally of dtypes, tensor spans in header order).
pub open spec fn safetensors_scan(es: Seq<(Seq<char>, Seq<char>, Seq<u64>, Seq<u64>, Option<u64>)>, data_len: nat) -> (
    nat,
    nat,
    nat,
    nat,
    Seq<(Level, Seq<char>)>,
    Map<Seq<char>, nat>,
    Seq<(u64, u64, Seq<char>)>,
)
    decreases es.len(),
{
    if es.len() == 0 {
        (0, 0, 0, 0, seq![], Map::empty(), seq![])
    } else {
        let p = safetensors_scan(es.drop_last(), data_len);
        let e = es.last();
        if e.0 == "__metadata__"@ {
            (p.0, match e.4 {
                Some(k) => k as nat,
                None => 0,
            }, p.2, p.3, p.4, p.5, p.6)
        } else {
            let tc = p.0 + 1;
            if e.3.len() != 2 {
                (tc, p.1, p.2, p.3, p.4.push((Level::Error, quoted(e.0) + " has no usable data_offsets"@)), p.5, p.6)
            } else if e.3[0] > e.3[1] {
                (tc, p.1, p.2, p.3, p.4.push((Level::Error, span_msg(e.0, e.3[0] as nat, e.3[1] as nat))), p.5, p.6)
            } else if e.3[1] > data_len {
                (tc, p.1, p.2, p.3, p.4.push((Level::Error, beyond_msg(e.0, e.3[1] as nat, data_len))), p.5, p.6)
            } else {
                let b = e.3[0] as nat;
                let end = e.3[1] as nat;
                let (pa, fs) = match (elements_of(e.2), dtype_width(e.1)) {
                    (Some(el), Some(w)) => {
                        let expected = sat_mul(el, w);
                        (sat_add(p.2, el), if expected != end - b {
                            p.4.push((Level::Error, size_msg(e.0, e.1, e.2, expected, (end - b) as nat)))
                        } else {
                            p.4
                        })
                    },
                    (None, _) => (p.2, p.4.push((Level::Error, quoted(e.0) + " has an overflowing shape"@))),
                    (_, None) => (p.2, p.4.push((Level::Warning, dtype_msg(e.0, e.1)))),
                };
                (tc, p.1, pa, if end > p.3 { end } else { p.3 }, fs, bump(p.5, e.1), p.6.push((e.3[0], e.3[1], e.0)))
            }
        }
    }
}

/// Where a span with start `k` goes in a list kept in order of starts:
/// after every span that starts at or before it.
pub open spec fn span_slot(t: Seq<(u64, u64, Seq<char>)>, k: u64) -> nat
    decreases t.len(),
{
    if t.len() == 0 {
        0
    } else if t.last().0 <= k {
        t.len()
    } else {
        span_slot(t.drop_last(), k)
    }
}

/// Spans in order of their starts; spans that start together keep their order.
pub open spec fn sort_spans(s: Seq<(u64, u64, Seq<char>)>) -> Seq<(u64, u64, Seq<char>)>
    decreases s.len(),
{
    if s.len() == 0 {
        seq![]
    } else {
        let t = sort_spans(s.drop_last());
        t.insert(span_slot(t, s.last().0) as int, s.last())
    }
}

/// One error for each pair of neighbours, in start order, that overlap.
pub open spec fn overlap_findings(t: Seq<(u64, u64, Seq<char>)>) -> Seq<(Level, Seq<char>)>
    decreases t.len(),
{
    if t.len() < 2 {
        seq![]
    } else {
        let a = t[t.len() - 2];
        let b = t.last();
        overlap_findings(t.drop_last()) + if b.0 < a.1 {
            seq![(Level::Error, overlap_msg(a.2, b.2))]
        } else {
            seq![]
        }
    }
}

pub open spec fn unclaimed_findings(data_bytes: nat, data_len: nat) -> Seq<(Level, Seq<char>)> {
    if data_bytes < data_len {
        seq![(Level::Note, human_text((data_len - data_bytes) as nat) + " of the data region is not claimed by any tensor"@)]
    } else {
        seq![]
    }
}

/// The report a safetensors file with a `hl`-byte JSON header gets.
pub open spec fn safetensors_report(
    path: Seq<char>,
    n: nat,
    hl: nat,
    header: Header,
    r: Report,
) -> bool {
    let fs = findings_view(r.findings@);
    &&& plain_report(r, path, n)
    &&& match header {
        Header::Invalid(e) => fs == seq![(Level::Error, "the header is not valid JSON: "@ + e@)]
            && r.tensor_count == 0 && r.metadata_count == 0 && no_tensors_read(r),
        Header::NotObject => fs == seq![(Level::Error, "the header is not a JSON object"@)]
            && r.tensor_count == 0 && r.metadata_count == 0 && no_tensors_read(r),
        Header::Entries(es) => {
            let data_len = (n - 8 - hl) as nat;
            let sc = safetensors_scan(entries_view(es@), data_len);
            &&& r.tensor_count == sc.0
            &&& r.metadata_count == sc.1
            &&& r.parameters == sc.2
            &&& r.data_bytes == sc.3
            &&& lists(type_pairs(r.tensor_types@), sc.5)
            &&& ranked(type_pairs(r.tensor_types@))
            &&& fs == sc.4 + overlap_findings(sort_spans(sc.6)) + unclaimed_findings(sc.3, data_len)
                + if sc.0 == 0 {
                seq![(Level::Warning, "the header describes no tensors"@)]
            } else {
                seq![]
            }
        },
    }
}


fn list_string(s: &Vec<u64>) -> (r: String)
    ensures
        r@ == list_text(s@),
{
    let mut items = String::new();
    let mut i: usize = 0;
    assert(s@.subrange(0, 0) =~= seq![]);
    while i < s.len()
        invariant
            i <= s.len(),
            items@ == list_items(s@.subrange(0, i as int)),
        decreases s.len() - i,
    {
        let sub = Ghost(s@.subrange(0, i + 1));
        assert(sub@.drop_last() =~= s@.subrange(0, i as int));
        if i > 0 {
            items.append(", ");
        }
        items.append(dec_string(s[i]).as_str());
        proof {
            if i == 0 {
                assert(items@ =~= list_items(sub@));
            } else {
                assert(items@ =~= list_items(sub@));
            }
        }
        i = i + 1;
    }
    assert(s@.subrange(0, i as int) =~= s@);
    let mut r = String::new();
    r.append("[");
    r.append(items.as_str());
    r.append("]");
    r
}

pub open spec fn span_view(t: (u64, u64, String)) -> (u64, u64, Seq<char>) {
    (t.0, t.1, t.2@)
}

pub open spec fn spans_view(v: Seq<(u64, u64, String)>) -> Seq<(u64, u64, Seq<char>)> {
    v.map_values(|t: (u64, u64, String)| span_view(t))
}

fn entry_message(name: &String, suffix: &str) -> (m: String)
    ensures
        m@ == quoted(name@) + suffix@,
{
    let mut m = String::new();
    m.append("tensor '");
    m.append(name.as_str());
    m.append("'");
    m.append(suffix);
    m
}

/// Walk the header's entries: what each tensor claims and whether it adds up.
fn scan_entries(es: &Vec<HeaderEntry>, data_len: u64) -> (r: (u64, u64, u64, u64, Vec<Finding>, Vec<TypeCount>, Vec<(u64, u64, String)>))
    ensures
        ({
            let sc = safetensors_scan(entries_view(es@), data_len as nat);
            &&& r.0 == sc.0
            &&& r.1 == sc.1
            &&& r.2 == sc.2
            &&& r.3 == sc.3
            &&& findings_view(r.4@) == sc.4
            &&& lists(type_pairs(r.5@), sc.5)
            &&& spans_view(r.6@) == sc.6
        }),
{
    let ghost ev = entries_view(es@);
    let mut tc: u64 = 0;
    let mut mc: u64 = 0;
    let mut params: u64 = 0;
    let mut data_bytes: u64 = 0;
    let mut findings: Vec<Finding> = Vec::new();
    let mut counts: Vec<TypeCount> = Vec::new();
    let mut spans: Vec<(u64, u64, String)> = Vec::new();
    let mut i: usize = 0;
    proof {
        assert(ev.subrange(0, 0) =~= seq![]);
        assert(findings_view(findings@) =~= seq![]);
        assert(type_pairs(counts@) =~= seq![]);
        assert(spans_view(spans@) =~= seq![]);
    }
    while i < es.len()
        invariant
            i <= es.len(),
            ev == entries_view(es@),
            ({
                let sc = safetensors_scan(ev.subrange(0, i as int), data_len as nat);
                &&& tc == sc.0
                &&& mc == sc.1
                &&& params == sc.2
                &&& data_bytes == sc.3
                &&& findings_view(findings@) == sc.4
                &&& lists(type_pairs(counts@), sc.5)
                &&& spans_view(spans@) == sc.6
                &&& sc.0 <= i
                &&& forall|k: Seq<char>| #[trigger] sc.5.dom().contains(k) ==> 1 <= sc.5[k] <= i
            }),
        decreases es.len() - i,
    {
        let ghost prev = safetensors_scan(ev.subrange(0, i as int), data_len as nat);
        proof {
            assert(ev.subrange(0, i + 1).drop_last() =~= ev.subrange(0, i as int));
            assert(ev.subrange(0, i + 1).last() == ev[i as int]);
            assert(ev[i as int] == entry_view(es@[i as int]));
        }
        let ghost next = safetensors_scan(ev.subrange(0, i + 1), data_len as nat);
        let e = &es[i];
        if crate::text::str_eq(e.name.as_str(), "__metadata__") {
            mc = match e.fields {
                Some(k) => k,
                None => 0,
            };
        } else {
            tc = tc + 1;
            if e.offsets.len() != 2 {
                let ghost fv = findings_view(findings@);
                findings.push(Finding { level: Level::Error, message: entry_message(&e.name, " has no usable data_offsets") });
                assert(findings_view(findings@) =~= fv.push((Level::Error, quoted(e.name@) + " has no usable data_offsets"@)));
            } else {
                let b = e.offsets[0];
                let end = e.offsets[1];
                if b > end {
                    let mut m = entry_message(&e.name, " starts at ");
                    m.append(dec_string(b).as_str());
                    m.append(" and ends at ");
                    m.append(dec_string(end).as_str());
                    let ghost fv = findings_view(findings@);
                    let ghost mv = m@;
                    findings.push(Finding { level: Level::Error, message: m });
                    assert(findings_view(findings@) =~= fv.push((Level::Error, mv)));
                } else if end > data_len {
                    let mut m = entry_message(&e.name, " ends at ");
                    m.append(dec_string(end).as_str());
                    m.append(" of the data region, which is only ");
                    m.append(dec_string(data_len).as_str());
                    m.append(" bytes");
                    let ghost fv = findings_view(findings@);
                    let ghost mv = m@;
                    findings.push(Finding { level: Level::Error, message: m });
                    assert(findings_view(findings@) =~= fv.push((Level::Error, mv)));
                } else {
                    let product = checked_product(&e.shape);
                    let width = dtype_size(e.dtype.as_str());
                    let ghost fv = findings_view(findings@);
                    if product.is_none() {
                        findings.push(Finding { level: Level::Error, message: entry_message(&e.name, " has an overflowing shape") });
                        assert(findings_view(findings@) =~= fv.push((Level::Error, quoted(e.name@) + " has an overflowing shape"@)));
                    } else {
                        let elements = product.unwrap();
                        match width {
                            Some(w) => {
                                let expected = match elements.checked_mul(w) {
                                    Some(x) => x,
                                    None => u64::MAX,
                                };
                                if expected != end - b {
                                    let mut m = entry_message(&e.name, " is ");
                                    m.append(e.dtype.as_str());
                                    m.append(list_string(&e.shape).as_str());
                                    m.append(", which needs ");
                                    m.append(dec_string(expected).as_str());
                                    m.append(" bytes, but its offsets span ");
                                    m.append(dec_string(end - b).as_str());
                                    let ghost mv = m@;
                                    findings.push(Finding { level: Level::Error, message: m });
                                    assert(findings_view(findings@) =~= fv.push((Level::Error, mv)));
                                }
                                params = params.saturating_add(elements);
                            },
                            None => {
                                let mut m = entry_message(&e.name, " uses dtype '");
                                m.append(e.dtype.as_str());
                                m.append("', which this build does not know; its size could not be checked");
                                let ghost mv = m@;
                                findings.push(Finding { level: Level::Warning, message: m });
                                assert(findings_view(findings@) =~= fv.push((Level::Warning, mv)));
                            },
                        }
                    }
                    count_type(&mut counts, e.dtype.as_str(), Ghost(prev.5), Ghost(i as nat));
                    let ghost sv = spans_view(spans@);
                    spans.push((b, end, e.name.clone()));
                    assert(spans_view(spans@) =~= sv.push((b, end, e.name@)));
                    if end > data_bytes {
                        data_bytes = end;
                    }
                }
            }
        }
        proof {
            assert(tc == next.0);
            assert(mc == next.1);
            assert(params == next.2);
            assert(data_bytes == next.3);
            assert(findings_view(findings@) == next.4);
            assert(spans_view(spans@) == next.6);
            assert forall|k: Seq<char>| #[trigger] next.5.dom().contains(k) implies 1 <= next.5[k] <= i + 1 by {
                if prev.5.dom().contains(k) {
                }
            }
        }
        i = i + 1;
    }
    assert(ev.subrange(0, i as int) =~= ev);
    (tc, mc, params, data_bytes, findings, counts, spans)
}

/// Stable sort of spans by their start.
fn sort_span_list(v: &Vec<(u64, u64, String)>) -> (r: Vec<(u64, u64, String)>)
    ensures
        spans_view(r@) == sort_spans(spans_view(v@)),
{
    let ghost sv = spans_view(v@);
    let mut out: Vec<(u64, u64, String)> = Vec::new();
    let mut i: usize = 0;
    assert(sv.subrange(0, 0) =~= seq![]);
    assert(spans_view(out@) =~= seq![]);
    while i < v.len()
        invariant
            i <= v.len(),
            sv == spans_view(v@),
            spans_view(out@) == sort_spans(sv.subrange(0, i as int)),
        decreases v.len() - i,
    {
        let k = v[i].0;
        let ghost t = spans_view(out@);
        let mut slot: usize = out.len();
        assert(t.subrange(0, slot as int) =~= t);
        while slot > 0 && out[slot - 1].0 > k
            invariant
                slot <= out.len(),
                t == spans_view(out@),
                span_slot(t, k) == span_slot(t.subrange(0, slot as int), k),
            decreases slot,
        {
            assert(t.subrange(0, slot as int).drop_last() =~= t.subrange(0, slot - 1));
            assert(t.subrange(0, slot as int).last() == t[slot - 1]);
            slot = slot - 1;
        }
        proof {
            if slot > 0 {
                assert(t.subrange(0, slot as int).last() == t[slot - 1]);
            }
        }
        let x = (v[i].0, v[i].1, v[i].2.clone());
        out.insert(slot, x);
        proof {
            assert(sv.subrange(0, i + 1).drop_last() =~= sv.subrange(0, i as int));
            assert(sv.subrange(0, i + 1).last() == sv[i as int]);
            assert(sv[i as int] == span_view(v@[i as int]));
            assert(spans_view(out@) =~= t.insert(slot as int, span_view(x)));
        }
        i = i + 1;
    }
    assert(sv.subrange(0, i as int) =~= sv);
    out
}

/// Check a safetensors file from its opening bytes: the length prefix, then
/// the JSON header it frames, read by serde_json, then the entries.
pub fn safetensors_file(head: &[u8], path: String, file_size: u64) -> (r: Result<Report, String>)
    ensures
        r is Err <==> header_span(head@, file_size as nat) is Err,
        r matches Err(e) ==> header_span(head@, file_size as nat) == Err::<Result<(nat, nat), Seq<(Level, Seq<char>)>>, Seq<char>>(e@),
        r matches Ok(rep) ==> match header_span(head@, file_size as nat) {
            Ok(Err(fs)) => findings_view(rep.findings@) == fs && plain_report(rep, path@, file_size as nat)
                && rep.tensor_count == 0 && rep.metadata_count == 0 && no_tensors_read(rep),
            Ok(Ok((start, end))) => exists|h: Header|
                #![trigger header_view(h)]
                header_view(h) == header_spec(json_of(head@.subrange(start as int, end as int)))
                && safetensors_report(path@, file_size as nat, (end - start) as nat, h, rep),
            Err(_) => false,
        },
{
    let p = path.clone();
    assert(p@ == path@);
    match safetensors_span(head, p, file_size) {
        Err(e) => Err(e),
        Ok(HeaderSpan::Refused(rep)) => Ok(rep),
        Ok(HeaderSpan::Json { start, end }) => {
            let bytes = vstd::slice::slice_subrange(head, start as usize, end as usize);
            assert(bytes@ == head@.subrange(start as int, end as int));
            let j = crate::json::read_json_bytes(bytes);
            let h = header_of(&j);
            let ghost hv = h;
            let rep = safetensors(path, file_size, end - start, h);
            assert(header_view(hv) == header_spec(json_of(head@.subrange(start as int, end as int))));
            assert(safetensors_report(path@, file_size as nat, (end - start) as nat, hv, rep));
            assert(header_span(head@, file_size as nat) == Ok::<Result<(nat, nat), Seq<(Level, Seq<char>)>>, Seq<char>>(Ok::<(nat, nat), Seq<(Level, Seq<char>)>>((start as nat, end as nat))));
            Ok(rep)
        },
    }
}

/// Check a safetensors file whose `header_len`-byte JSON header has been
/// parsed into `header`.
pub fn safetensors(path: String, file_size: u64, header_len: u64, header: Header) -> (r: Report)
    requires
        8 <= file_size,
        header_len <= file_size - 8,
    ensures
        safetensors_report(path@, file_size as nat, header_len as nat, header, r),
{
    let ghost hv = header;
    let mut report = empty_report(path, Format::Safetensors, file_size);
    let entries = match header {
        Header::Invalid(e) => {
            report.add(Level::Error, prefixed("the header is not valid JSON: ", e));
            return report;
        },
        Header::NotObject => {
            report.add(Level::Error, "the header is not a JSON object".to_owned());
            return report;
        },
        Header::Entries(entries) => entries,
    };
    let data_len = file_size - 8 - header_len;
    let ghost sc = safetensors_scan(entries_view(entries@), data_len as nat);
    let (tc, mc, params, data_bytes, found, counts, spans) = scan_entries(&entries, data_len);
    report.tensor_count = tc;
    report.metadata_count = mc;
    report.parameters = params;
    report.data_bytes = data_bytes;
    report.findings = found;
    let sorted = sort_span_list(&spans);
    let ghost t = spans_view(sorted@);
    let ghost base = findings_view(report.findings@);
    if sorted.len() >= 1 {
        let mut i: usize = 1;
        assert(t.subrange(0, 1) =~= seq![t[0]]);
        while i < sorted.len()
            invariant
                1 <= i <= sorted.len(),
                t == spans_view(sorted@),
                findings_view(report.findings@) == base + overlap_findings(t.subrange(0, i as int)),
                plain_report(report, path@, file_size as nat),
                report.tensor_count == tc,
                report.metadata_count == mc,
                report.parameters == params,
                report.data_bytes == data_bytes,
                report.tensor_types@.len() == 0,
            decreases sorted.len() - i,
        {
            let ghost sub = t.subrange(0, i + 1);
            proof {
                assert(sub.drop_last() =~= t.subrange(0, i as int));
                assert(sub[sub.len() - 2] == t[i - 1]);
                assert(sub.last() == t[i as int]);
                assert(t[i as int] == span_view(sorted@[i as int]));
                assert(t[i - 1] == span_view(sorted@[i - 1]));
            }
            if sorted[i].0 < sorted[i - 1].1 {
                let mut m = String::new();
                m.append("tensors '");
                m.append(sorted[i - 1].2.as_str());
                m.append("' and '");
                m.append(sorted[i].2.as_str());
                m.append("' overlap in the data region");
                report.add(Level::Error, m);
            }
            i = i + 1;
        }
        assert(t.subrange(0, i as int) =~= t);
    } else {
        assert(t.len() == 0);
    }
    if data_bytes < data_len {
        let mut m = human(data_len - data_bytes);
        m.append(" of the data region is not claimed by any tensor");
        report.add(Level::Note, m);
    }
    if tc == 0 {
        report.add(Level::Warning, "the header describes no tensors".to_owned());
    }
    report.tensor_types = rank_types(&counts, Ghost(sc.5));
    proof {
        let unclaimed = unclaimed_findings(sc.3, data_len as nat);
        let none = if sc.0 == 0 {
            seq![(Level::Warning, "the header describes no tensors"@)]
        } else {
            seq![]
        };
        assert(findings_view(report.findings@) =~= sc.4 + overlap_findings(sort_spans(sc.6)) + unclaimed + none);
    }
    report
}

} // verus!
