use localbench::gguf::{
    lazy_table_bytes, parse, read_model_shape, scan_shape, scan_tensor_bytes, tensor_bytes, End,
    ModelShape, LAZY_AUTO_MIN_BYTES, LAZY_TABLE,
};

const STRING: u32 = 8;
const UINT32: u32 = 4;
const INT32: u32 = 5;
const ARRAY: u32 = 9;

fn put_string(out: &mut Vec<u8>, s: &str) {
    out.extend_from_slice(&(s.len() as u64).to_le_bytes());
    out.extend_from_slice(s.as_bytes());
}

/// Build a minimal GGUF byte stream with the given string and uint metadata.
fn gguf(strings: &[(&str, &str)], uints: &[(&str, u64)]) -> Vec<u8> {
    let mut out = Vec::new();
    out.extend_from_slice(b"GGUF");
    out.extend_from_slice(&3u32.to_le_bytes()); // version
    out.extend_from_slice(&0u64.to_le_bytes()); // tensor_count
    let kv = (strings.len() + uints.len()) as u64;
    out.extend_from_slice(&kv.to_le_bytes());
    for (k, v) in strings {
        put_string(&mut out, k);
        out.extend_from_slice(&STRING.to_le_bytes());
        put_string(&mut out, v);
    }
    for (k, v) in uints {
        put_string(&mut out, k);
        out.extend_from_slice(&UINT32.to_le_bytes());
        out.extend_from_slice(&(*v as u32).to_le_bytes());
    }
    out
}

#[test]
fn a_dense_model_reads_zero_experts_and_its_layer_count() {
    // No expert_count key: dense (0, authoritative), block_count read.
    let bytes = gguf(
        &[("general.architecture", "qwen35")],
        &[
            ("qwen35.block_count", 65),
            ("qwen35.attention.head_count", 40),
        ],
    );
    let shape = parse(&bytes).unwrap();
    assert_eq!(shape.expert_count, 0, "no expert_count key means dense");
    assert_eq!(shape.block_count, 65);
}

#[test]
fn an_moe_model_reads_its_expert_count() {
    let bytes = gguf(
        &[("general.architecture", "qwen3moe")],
        &[("qwen3moe.block_count", 48), ("qwen3moe.expert_count", 128)],
    );
    let shape = parse(&bytes).unwrap();
    assert_eq!(shape.expert_count, 128);
    assert_eq!(shape.block_count, 48);
}

#[test]
fn an_array_valued_entry_is_skipped_without_derailing_later_keys() {
    // A tokenizer token-type array (common, large) sits between the keys we
    // want; the reader must skip it and still find block_count after it.
    let mut bytes = Vec::new();
    bytes.extend_from_slice(b"GGUF");
    bytes.extend_from_slice(&3u32.to_le_bytes());
    bytes.extend_from_slice(&0u64.to_le_bytes());
    bytes.extend_from_slice(&3u64.to_le_bytes()); // 3 kv
    put_string(&mut bytes, "general.architecture");
    bytes.extend_from_slice(&STRING.to_le_bytes());
    put_string(&mut bytes, "llama");
    // an int32 array of 4 elements
    put_string(&mut bytes, "tokenizer.ggml.token_type");
    bytes.extend_from_slice(&ARRAY.to_le_bytes());
    bytes.extend_from_slice(&INT32.to_le_bytes());
    bytes.extend_from_slice(&4u64.to_le_bytes());
    for v in [1i32, 2, 3, 4] {
        bytes.extend_from_slice(&v.to_le_bytes());
    }
    // block_count after the array
    put_string(&mut bytes, "llama.block_count");
    bytes.extend_from_slice(&UINT32.to_le_bytes());
    bytes.extend_from_slice(&32u32.to_le_bytes());

    let shape = parse(&bytes).unwrap();
    assert_eq!(shape.block_count, 32);
    assert_eq!(shape.expert_count, 0);
}

/// A GGUF stream with a tensor directory: `(name, offset)` entries and
/// `data_len` bytes of tensor data after the aligned directory.
fn gguf_with_tensors(tensors: &[(&str, u64)], data_len: u64, alignment: Option<u32>) -> Vec<u8> {
    let mut out = Vec::new();
    out.extend_from_slice(b"GGUF");
    out.extend_from_slice(&3u32.to_le_bytes());
    out.extend_from_slice(&(tensors.len() as u64).to_le_bytes());
    let kv = 1 + u64::from(alignment.is_some());
    out.extend_from_slice(&kv.to_le_bytes());
    put_string(&mut out, "general.architecture");
    out.extend_from_slice(&STRING.to_le_bytes());
    put_string(&mut out, "qwen4exp");
    if let Some(a) = alignment {
        put_string(&mut out, "general.alignment");
        out.extend_from_slice(&UINT32.to_le_bytes());
        out.extend_from_slice(&a.to_le_bytes());
    }
    for (name, offset) in tensors {
        put_string(&mut out, name);
        out.extend_from_slice(&2u32.to_le_bytes());
        out.extend_from_slice(&256u64.to_le_bytes());
        out.extend_from_slice(&1024u64.to_le_bytes());
        out.extend_from_slice(&12u32.to_le_bytes());
        out.extend_from_slice(&offset.to_le_bytes());
    }
    let align = u64::from(alignment.unwrap_or(32));
    while out.len() as u64 % align != 0 {
        out.push(0);
    }
    out.resize(out.len() + usize::try_from(data_len).unwrap(), 0);
    out
}

fn size_of(bytes: Vec<u8>, name: &str) -> Option<u64> {
    let len = bytes.len() as u64;
    tensor_bytes(&bytes, len, name)
}

#[test]
fn a_tensor_runs_to_the_next_offset_or_to_the_end_of_the_file() {
    let bytes = gguf_with_tensors(
        &[
            ("token_embd.weight", 0),
            (LAZY_TABLE, 4096),
            ("output.weight", 4096 + 7000),
        ],
        4096 + 7000 + 1200,
        None,
    );
    assert_eq!(size_of(bytes.clone(), LAZY_TABLE), Some(7000));
    assert_eq!(size_of(bytes.clone(), "output.weight"), Some(1200));
    assert_eq!(size_of(bytes, "token_embd.weight"), Some(4096));
}

#[test]
fn the_data_section_starts_at_the_files_own_alignment() {
    let bytes = gguf_with_tensors(&[(LAZY_TABLE, 0)], 5000, Some(64));
    assert_eq!(size_of(bytes, LAZY_TABLE), Some(5000));
}

#[test]
fn a_shard_without_the_table_answers_none() {
    let bytes = gguf_with_tensors(&[("blk.0.ffn_up_exps.weight", 0)], 100, None);
    assert_eq!(size_of(bytes, LAZY_TABLE), None);
    let truncated = gguf_with_tensors(&[(LAZY_TABLE, 0)], 100, None);
    assert_eq!(size_of(truncated[..40].to_vec(), LAZY_TABLE), None);
}

#[test]
fn a_non_gguf_file_is_unknown() {
    let shape = parse(&b"not a gguf".to_vec());
    assert!(shape.is_none());
    assert_eq!(read_model_shape(None), ModelShape::unknown());
    assert_eq!(ModelShape::unknown().expert_count, -1);
    assert_eq!(ModelShape::unknown().block_count, 0);
}

#[test]
fn a_truncated_header_is_unknown_not_a_panic() {
    // Claims 5 kv but the stream ends after the first key.
    let mut bytes = Vec::new();
    bytes.extend_from_slice(b"GGUF");
    bytes.extend_from_slice(&3u32.to_le_bytes());
    bytes.extend_from_slice(&0u64.to_le_bytes());
    bytes.extend_from_slice(&5u64.to_le_bytes());
    bytes.extend_from_slice(&(4u64).to_le_bytes());
    bytes.extend_from_slice(b"arch");
    assert!(parse(&bytes).is_none());
    assert_eq!(scan_shape(&bytes), Err(End::Short));
}

#[test]
fn a_header_that_never_names_an_architecture_is_unknown_not_dense() {
    // A fully-parsed header carrying a block_count but no
    // `general.architecture` is a file this parser does not understand.
    let bytes = gguf(&[], &[("qwen35.block_count", 65)]);
    assert!(
        parse(&bytes).is_none(),
        "no general.architecture means unknown, not dense"
    );
    assert_eq!(scan_shape(&bytes), Err(End::Bad));
}

#[test]
fn a_longer_prefix_never_changes_the_answer() {
    let whole = gguf(
        &[("general.architecture", "qwen3moe")],
        &[("qwen3moe.block_count", 48), ("qwen3moe.expert_count", 128)],
    );
    let shape = scan_shape(&whole).unwrap();
    for cut in 0..whole.len() {
        let prefix = whole[..cut].to_vec();
        assert_eq!(scan_shape(&prefix), Err(End::Short), "cut at {cut}");
    }
    let mut longer = whole.clone();
    longer.extend_from_slice(&[7; 100]);
    assert_eq!(scan_shape(&longer).unwrap(), shape);
}

#[test]
fn a_name_that_is_no_utf8_is_read_with_replacements() {
    // The architecture's bytes are not UTF-8: the key is matched on the same
    // replaced text.
    let mut bytes = Vec::new();
    bytes.extend_from_slice(b"GGUF");
    bytes.extend_from_slice(&3u32.to_le_bytes());
    bytes.extend_from_slice(&0u64.to_le_bytes());
    bytes.extend_from_slice(&2u64.to_le_bytes());
    put_string(&mut bytes, "general.architecture");
    bytes.extend_from_slice(&STRING.to_le_bytes());
    bytes.extend_from_slice(&2u64.to_le_bytes());
    bytes.extend_from_slice(&[b'q', 0xff]);
    put_string(&mut bytes, "q\u{fffd}.block_count");
    bytes.extend_from_slice(&UINT32.to_le_bytes());
    bytes.extend_from_slice(&9u32.to_le_bytes());
    assert_eq!(parse(&bytes).unwrap().block_count, 9);
}

#[test]
fn a_table_is_lazy_only_when_its_shard_says_so() {
    let bytes = gguf_with_tensors(&[(LAZY_TABLE, 0)], 100, None);
    let len = bytes.len() as u64;
    assert_eq!(lazy_table_bytes(Some(&bytes), len), Some(100));
    assert_eq!(lazy_table_bytes(None, len), None);
    // Only the directory has to be there; the data may lie beyond the prefix.
    let directory = bytes[..bytes.len() - 100].to_vec();
    assert_eq!(
        scan_tensor_bytes(&directory, LAZY_AUTO_MIN_BYTES + directory.len() as u64, LAZY_TABLE),
        Ok(LAZY_AUTO_MIN_BYTES)
    );
}

fn gguf_with_signed(key: &str, value: i32) -> Vec<u8> {
    let mut out = gguf(&[("general.architecture", "llama")], &[]);
    out[16] = 2;
    put_string(&mut out, key);
    out.extend_from_slice(&5u32.to_le_bytes());
    out.extend_from_slice(&value.to_le_bytes());
    out
}

#[test]
fn a_count_below_zero_is_unknown() {
    let read = parse(&gguf_with_signed("llama.expert_count", 8)).unwrap();
    assert_eq!(read.expert_count, 8);
    assert_eq!(parse(&gguf_with_signed("llama.expert_count", -5)), None);
    assert_eq!(parse(&gguf_with_signed("llama.block_count", -1)), None);
    let shape = read_model_shape(Some(&gguf_with_signed("llama.expert_count", -5)));
    assert_eq!(shape, ModelShape::unknown());
}

#[test]
fn arrays_nested_a_million_deep_are_unknown_not_an_overflow() {
    let mut out = gguf(&[("general.architecture", "llama")], &[]);
    out[16] = 2;
    put_string(&mut out, "deep");
    out.extend_from_slice(&9u32.to_le_bytes());
    for _ in 0..1_000_000 {
        out.extend_from_slice(&9u32.to_le_bytes());
        out.extend_from_slice(&1u64.to_le_bytes());
    }
    assert_eq!(parse(&out), None);
    assert_eq!(scan_shape(&out), Err(End::Short));
    // Closed by an empty array, the same nest reads.
    out.extend_from_slice(&0u32.to_le_bytes());
    out.extend_from_slice(&0u64.to_le_bytes());
    assert_eq!(parse(&out).unwrap().expert_count, 0);
}
