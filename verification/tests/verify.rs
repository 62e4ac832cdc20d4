use llmspec::json::read_json_bytes;
use llmspec::verify::{
    header_of,
    detect, dtype_size, gguf, human, safetensors, Format, GgmlType, Header,
    HeaderEntry, Level, Report,
};

#[test]
fn sizes_are_rendered_in_the_unit_a_person_would_use() {
    assert_eq!(human(512), "512 B");
    assert_eq!(human(1536), "1.5 KB");
    assert_eq!(human(4 * 1024 * 1024 * 1024), "4.0 GB");
}

#[test]
fn sizes_round_to_one_decimal_like_float_formatting() {
    assert_eq!(human(0), "0 B");
    assert_eq!(human(1023), "1023 B");
    assert_eq!(human(1024), "1.0 KB");
    // 1.25 KB and 1.75 KB sit exactly between two tenths: ties go to even.
    assert_eq!(human(1280), "1.2 KB");
    assert_eq!(human(1792), "1.8 KB");
    assert_eq!(human(1048575), "1024.0 KB");
    assert_eq!(human(5 * 1024 * 1024 * 1024 * 1024), "5.0 TB");
    assert_eq!(human(u64::MAX), "16777216.0 TB");
}

fn gguf_string(s: &str) -> Vec<u8> {
    let mut out = (s.len() as u64).to_le_bytes().to_vec();
    out.extend_from_slice(s.as_bytes());
    out
}

fn good_gguf() -> Vec<u8> {
    let mut out = b"GGUF".to_vec();
    out.extend_from_slice(&3u32.to_le_bytes());
    out.extend_from_slice(&1u64.to_le_bytes());
    out.extend_from_slice(&1u64.to_le_bytes());
    out.extend(gguf_string("general.architecture"));
    out.extend_from_slice(&8u32.to_le_bytes());
    out.extend(gguf_string("llama"));
    out.extend(gguf_string("blk.0.attn_q.weight"));
    out.extend_from_slice(&2u32.to_le_bytes());
    out.extend_from_slice(&256u64.to_le_bytes());
    out.extend_from_slice(&4u64.to_le_bytes());
    out.extend_from_slice(&12u32.to_le_bytes());
    out.extend_from_slice(&0u64.to_le_bytes());
    let data_start = out.len().div_ceil(32) * 32;
    out.resize(data_start + 576, 0);
    out
}

fn check(bytes: &[u8]) -> Result<Report, String> {
    let size = bytes.len() as u64;
    match detect(bytes, size)? {
        Format::Gguf => gguf(bytes, "test".to_string(), size),
        Format::Safetensors => llmspec::verify::safetensors_file(bytes, "test".to_string(), size),
    }
}

#[test]
fn a_well_formed_gguf_reads_clean() {
    let report = check(&good_gguf()).unwrap();
    assert!(report.is_intact(), "findings: {:?}", report.findings);
    assert_eq!(report.format, Format::Gguf);
    assert_eq!(report.version, Some(3));
    assert_eq!(report.tensor_count, 1);
    assert_eq!(report.architecture.as_deref(), Some("llama"));
    assert_eq!(report.parameters, 1024);
    assert_eq!(report.tensor_types[0].name, "Q4_K");
    assert_eq!(report.data_bytes, 576);
}

#[test]
fn a_truncated_download_is_the_error_this_command_exists_for() {
    let mut bytes = good_gguf();
    bytes.truncate(bytes.len() - 200);
    let report = check(&bytes).unwrap();
    assert!(!report.is_intact());
    let message = &report.findings.iter().find(|f| f.level == Level::Error).unwrap().message;
    assert!(message.contains("did not finish"), "unhelpful message: {message}");
    assert!(message.starts_with("the file is 200 B short"), "{message}");
}

#[test]
fn a_file_read_only_in_part_still_checks_its_header() {
    // The check needs the header, not the weights: the same report comes
    // from the opening bytes alone when the real size is given.
    let bytes = good_gguf();
    let header_only = &bytes[..200];
    let report = gguf(header_only, "test".to_string(), bytes.len() as u64).unwrap();
    assert!(report.is_intact(), "findings: {:?}", report.findings);
    assert_eq!(report.parameters, 1024);
}

#[test]
fn an_absurd_tensor_count_is_refused_without_allocating_for_it() {
    let mut bytes = b"GGUF".to_vec();
    bytes.extend_from_slice(&3u32.to_le_bytes());
    bytes.extend_from_slice(&u64::MAX.to_le_bytes());
    bytes.extend_from_slice(&0u64.to_le_bytes());
    let report = check(&bytes).unwrap();
    assert!(!report.is_intact());
    assert!(report.findings[0].message.contains("cannot fit"), "{:?}", report.findings);
}

#[test]
fn an_absurd_metadata_count_is_refused_too() {
    let mut bytes = b"GGUF".to_vec();
    bytes.extend_from_slice(&3u32.to_le_bytes());
    bytes.extend_from_slice(&0u64.to_le_bytes());
    bytes.extend_from_slice(&u64::MAX.to_le_bytes());
    let report = check(&bytes).unwrap();
    assert!(!report.is_intact());
}

#[test]
fn a_string_longer_than_the_file_does_not_allocate_it() {
    let mut bytes = b"GGUF".to_vec();
    bytes.extend_from_slice(&3u32.to_le_bytes());
    bytes.extend_from_slice(&0u64.to_le_bytes());
    bytes.extend_from_slice(&1u64.to_le_bytes());
    bytes.extend_from_slice(&(2u64 << 30).to_le_bytes());
    bytes.extend_from_slice(b"short");
    let report = check(&bytes).unwrap();
    assert!(!report.is_intact());
    assert!(report.findings[0].message.contains("malformed"), "{:?}", report.findings);
}

#[test]
fn too_many_dimensions_is_rejected_rather_than_sized_from_the_file() {
    let mut bytes = b"GGUF".to_vec();
    bytes.extend_from_slice(&3u32.to_le_bytes());
    bytes.extend_from_slice(&1u64.to_le_bytes());
    bytes.extend_from_slice(&0u64.to_le_bytes());
    bytes.extend(gguf_string("t"));
    bytes.extend_from_slice(&9999u32.to_le_bytes());
    bytes.resize(bytes.len() + 64, 0);
    let report = check(&bytes).unwrap();
    assert!(!report.is_intact());
    assert!(report.findings[0].message.contains("dimensions"));
}

#[test]
fn an_unknown_tensor_type_is_a_warning_not_a_verdict_on_the_file() {
    let mut bytes = good_gguf();
    let marker = 12u32.to_le_bytes();
    let at = bytes.windows(4).position(|w| w == marker).unwrap();
    bytes[at..at + 4].copy_from_slice(&250u32.to_le_bytes());
    let report = check(&bytes).unwrap();
    assert!(report.is_intact(), "findings: {:?}", report.findings);
    assert!(report.findings.iter().any(|f| f.level == Level::Warning));
}

#[test]
fn a_newer_version_is_read_with_a_warning() {
    let mut bytes = good_gguf();
    bytes[4..8].copy_from_slice(&7u32.to_le_bytes());
    let report = check(&bytes).unwrap();
    assert!(report.is_intact());
    assert_eq!(report.findings[0].level, Level::Warning);
    assert!(report.findings[0].message.starts_with("GGUF version 7 is newer"));
}

#[test]
fn metadata_values_of_every_scalar_type_are_read_past() {
    let mut out = b"GGUF".to_vec();
    out.extend_from_slice(&3u32.to_le_bytes());
    out.extend_from_slice(&0u64.to_le_bytes());
    out.extend_from_slice(&4u64.to_le_bytes());
    out.extend(gguf_string("general.name"));
    out.extend_from_slice(&5u32.to_le_bytes());
    out.extend_from_slice(&(-7i32).to_le_bytes());
    out.extend(gguf_string("general.architecture"));
    out.extend_from_slice(&8u32.to_le_bytes());
    out.extend(gguf_string("qwen2"));
    out.extend(gguf_string("qwen2.context_length"));
    out.extend_from_slice(&4u32.to_le_bytes());
    out.extend_from_slice(&32768u32.to_le_bytes());
    out.extend(gguf_string("tokenizer.ggml.tokens"));
    out.extend_from_slice(&9u32.to_le_bytes());
    out.extend_from_slice(&8u32.to_le_bytes());
    out.extend_from_slice(&2u64.to_le_bytes());
    out.extend(gguf_string("a"));
    out.extend(gguf_string("b"));
    out.resize(out.len().div_ceil(32) * 32, 0);
    let report = check(&out).unwrap();
    assert_eq!(report.name.as_deref(), Some("-7"));
    assert_eq!(report.architecture.as_deref(), Some("qwen2"));
    assert_eq!(report.context_length, Some(32768));
    assert_eq!(report.findings.last().unwrap().message, "the file declares no tensors");
}

#[test]
fn a_misaligned_alignment_is_an_error() {
    let mut out = b"GGUF".to_vec();
    out.extend_from_slice(&3u32.to_le_bytes());
    out.extend_from_slice(&0u64.to_le_bytes());
    out.extend_from_slice(&1u64.to_le_bytes());
    out.extend(gguf_string("general.alignment"));
    out.extend_from_slice(&4u32.to_le_bytes());
    out.extend_from_slice(&24u32.to_le_bytes());
    let report = check(&out).unwrap();
    assert_eq!(report.findings[0].message, "general.alignment is 24, which is not a power of two");
}

#[test]
fn a_header_that_cannot_be_read_is_an_error_not_a_report() {
    assert!(gguf(b"GGUF\x03\x00\x00\x00", "t".to_string(), 8).is_err());
}

fn safetensors_file(header: &str, data: usize) -> Vec<u8> {
    let mut out = (header.len() as u64).to_le_bytes().to_vec();
    out.extend_from_slice(header.as_bytes());
    out.resize(out.len() + data, 0);
    out
}

fn entry(name: &str, dtype: &str, shape: &[u64], offsets: &[u64]) -> HeaderEntry {
    HeaderEntry {
        name: name.to_string(),
        dtype: dtype.to_string(),
        shape: shape.to_vec(),
        offsets: offsets.to_vec(),
        fields: Some(3),
    }
}

/// The whole check of a safetensors file, from its bytes.
fn st_report(bytes: &[u8]) -> Report {
    llmspec::verify::safetensors_file(bytes, "test".to_string(), bytes.len() as u64).unwrap()
}

#[test]
fn a_well_formed_safetensors_reads_clean() {
    let header = r#"{"a":{"dtype":"F16","shape":[4,8],"data_offsets":[0,64]}}"#;
    let bytes = safetensors_file(header, 64);
    assert_eq!(detect(&bytes, bytes.len() as u64), Ok(Format::Safetensors));
    let report = st_report(&bytes);
    assert!(report.is_intact(), "findings: {:?}", report.findings);
    assert_eq!(report.format, Format::Safetensors);
    assert_eq!(report.tensor_count, 1);
    assert_eq!(report.parameters, 32);
    assert_eq!(report.tensor_types[0].name, "F16");
}

#[test]
fn a_shape_that_disagrees_with_its_byte_span_is_an_error() {
    let header = r#"{"a":{"dtype":"F16","shape":[4,8],"data_offsets":[0,32]}}"#;
    let bytes = safetensors_file(header, 32);
    let report = st_report(&bytes);
    assert!(!report.is_intact());
    assert!(report.findings[0].message.contains("needs 64 bytes"), "{:?}", report.findings);
    assert_eq!(
        report.findings[0].message,
        "tensor 'a' is F16[4, 8], which needs 64 bytes, but its offsets span 32"
    );
}

#[test]
fn overlapping_tensors_are_caught_even_though_each_one_fits() {
    let header = r#"{"a":{"dtype":"U8","shape":[64],"data_offsets":[0,64]},"b":{"dtype":"U8","shape":[64],"data_offsets":[32,96]}}"#;
    let bytes = safetensors_file(header, 96);
    let report = st_report(&bytes);
    assert!(!report.is_intact());
    assert!(report.findings.iter().any(|f| f.message.contains("overlap")), "{:?}", report.findings);
}

#[test]
fn a_header_larger_than_the_file_is_refused() {
    let mut bytes = (u64::MAX).to_le_bytes().to_vec();
    bytes.extend_from_slice(b"{}");
    let report = check(&bytes).unwrap();
    assert!(!report.is_intact());
}

#[test]
fn a_file_that_is_neither_format_is_reported_as_such() {
    let bytes = b"this is not a model file at all";
    let error = check(bytes).unwrap_err();
    assert!(error.contains("not a GGUF or safetensors file"), "{error}");
    assert_eq!(detect(b"tiny", 4).unwrap_err(), "file is too small to be a model file");
}

#[test]
fn headers_that_are_not_json_objects_are_errors() {
    let r = safetensors("p".to_string(), 100, 10, Header::Invalid("expected value at line 1".to_string()));
    assert_eq!(r.findings[0].message, "the header is not valid JSON: expected value at line 1");
    let r = safetensors("p".to_string(), 100, 10, Header::NotObject);
    assert_eq!(r.findings[0].message, "the header is not a JSON object");
    assert!(!r.is_intact());
}

#[test]
fn metadata_and_unknown_dtypes_and_unclaimed_bytes_are_reported() {
    let mut meta = entry("__metadata__", "", &[], &[]);
    meta.fields = Some(2);
    let r = safetensors(
        "p".to_string(),
        8 + 10 + 100,
        10,
        Header::Entries(vec![meta, entry("w", "Q9", &[10], &[0, 10]), entry("v", "F32", &[2], &[10, 18])]),
    );
    assert_eq!(r.metadata_count, 2);
    assert_eq!(r.tensor_count, 2);
    assert_eq!(r.parameters, 2);
    assert_eq!(r.data_bytes, 18);
    assert!(r.is_intact(), "{:?}", r.findings);
    assert_eq!(r.findings[0].level, Level::Warning);
    assert_eq!(r.findings[1].message, "82 B of the data region is not claimed by any tensor");
    assert_eq!(r.tensor_types.len(), 2);
}

#[test]
fn tensor_types_are_listed_most_used_first_then_by_name() {
    let r = safetensors(
        "p".to_string(),
        8 + 2 + 6,
        2,
        Header::Entries(vec![
            entry("a", "U8", &[1], &[0, 1]),
            entry("b", "I8", &[1], &[1, 2]),
            entry("c", "I8", &[1], &[2, 3]),
            entry("d", "BOOL", &[1], &[3, 4]),
            entry("e", "F8_E4M3", &[1], &[4, 5]),
            entry("f", "F8_E5M2", &[1], &[5, 6]),
        ]),
    );
    let names: Vec<(&str, usize)> = r.tensor_types.iter().map(|t| (t.name.as_str(), t.tensors)).collect();
    assert_eq!(
        names,
        vec![("I8", 2), ("BOOL", 1), ("F8_E4M3", 1), ("F8_E5M2", 1), ("U8", 1)]
    );
}

#[test]
fn bad_offsets_are_errors_each() {
    let r = safetensors(
        "p".to_string(),
        8 + 2 + 16,
        2,
        Header::Entries(vec![
            entry("x", "U8", &[1], &[3]),
            entry("y", "U8", &[1], &[5, 4]),
            entry("z", "U8", &[1], &[0, 17]),
        ]),
    );
    let messages: Vec<&str> = r.findings.iter().map(|f| f.message.as_str()).collect();
    assert_eq!(messages[0], "tensor 'x' has no usable data_offsets");
    assert_eq!(messages[1], "tensor 'y' starts at 5 and ends at 4");
    assert_eq!(messages[2], "tensor 'z' ends at 17 of the data region, which is only 16 bytes");
}

#[test]
fn element_type_tables_match_the_formats() {
    assert_eq!(dtype_size("BF16"), Some(2));
    assert_eq!(dtype_size("BOOL"), Some(1));
    assert_eq!(dtype_size("F64"), Some(8));
    assert_eq!(dtype_size("q4"), None);
    let k = GgmlType::from_id(12).unwrap();
    assert_eq!((k.name, k.block, k.size), ("Q4_K", 256, 144));
    assert!(GgmlType::from_id(4).is_none());
    assert_eq!(GgmlType::from_id(30).unwrap().name, "BF16");
    assert_eq!(Format::Gguf.label(), "GGUF");
    assert_eq!(Level::Warning.label(), "warning");
}

#[test]
fn a_safetensors_file_is_checked_from_its_own_bytes() {
    let header = r#"{"a":{"data_offsets":[0,64],"dtype":"F16","shape":[4,8]}}"#;
    let bytes = safetensors_file(header, 64);
    let report = llmspec::verify::safetensors_file(&bytes, "t".to_string(), bytes.len() as u64).unwrap();
    assert!(report.is_intact(), "findings: {:?}", report.findings);
    assert_eq!(report.tensor_count, 1);
    assert_eq!(report.parameters, 32);
    assert_eq!(report.tensor_types[0].name, "F16");

    let header = r#"{"a":{"data_offsets":[0,32],"dtype":"F16","shape":[4,8]}}"#;
    let bytes = safetensors_file(header, 32);
    let report = llmspec::verify::safetensors_file(&bytes, "t".to_string(), bytes.len() as u64).unwrap();
    assert_eq!(report.findings[0].message, "tensor 'a' is F16[4, 8], which needs 64 bytes, but its offsets span 32");
}

#[test]
fn a_safetensors_header_that_is_not_a_json_object_is_reported() {
    let bytes = safetensors_file("[1,2]", 0);
    let report = llmspec::verify::safetensors_file(&bytes, "t".to_string(), bytes.len() as u64).unwrap();
    assert_eq!(report.findings.len(), 1);
    assert_eq!(report.findings[0].level, Level::Error);
    assert_eq!(report.findings[0].message, "the header is not a JSON object");

    let bytes = safetensors_file("{nope", 0);
    let report = llmspec::verify::safetensors_file(&bytes, "t".to_string(), bytes.len() as u64).unwrap();
    assert!(report.findings[0].message.starts_with("the header is not valid JSON: "), "{:?}", report.findings);
}

#[test]
fn the_header_walk_keeps_what_the_checks_read() {
    let j = read_json_bytes(br#"{"w":{"data_offsets":[0,8],"dtype":"F32","shape":[2]},"x":{"dtype":3,"shape":[-1,2.5,7]},"y":5}"#);
    match header_of(&j) {
        Header::Entries(es) => {
            assert_eq!(es.len(), 3);
            assert_eq!(es[0].name, "w");
            assert_eq!(es[0].dtype, "F32");
            assert_eq!(es[0].shape, vec![2]);
            assert_eq!(es[0].offsets, vec![0, 8]);
            assert_eq!(es[0].fields, Some(3));
            assert_eq!(es[1].dtype, "");
            assert_eq!(es[1].shape, vec![7]);
            assert!(es[1].offsets.is_empty());
            assert_eq!(es[1].fields, Some(2));
            assert_eq!(es[2].fields, None);
        }
        _ => panic!("an object header has entries"),
    }
    assert!(matches!(header_of(&read_json_bytes(b"true")), Header::NotObject));
    assert!(matches!(header_of(&Err("bad".to_string())), Header::Invalid(e) if e == "bad"));
}

#[test]
fn metadata_and_unknown_dtypes_are_read_from_the_file_itself() {
    let header = r#"{"__metadata__":{"a":"1","b":"2"},"v":{"data_offsets":[10,18],"dtype":"F32","shape":[2]},"w":{"data_offsets":[0,10],"dtype":"Q9","shape":[10]}}"#;
    let bytes = safetensors_file(header, 100);
    let r = st_report(&bytes);
    assert_eq!(r.metadata_count, 2);
    assert_eq!(r.tensor_count, 2);
    assert_eq!(r.parameters, 2);
    assert_eq!(r.data_bytes, 18);
    assert!(r.is_intact(), "{:?}", r.findings);
    assert_eq!(r.findings[0].level, Level::Warning);
    assert_eq!(r.findings[1].message, "82 B of the data region is not claimed by any tensor");
}
