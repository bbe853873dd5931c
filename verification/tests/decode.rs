use shader_reflect::spirv;
use shader_reflect::DecodeError;
use shader_reflect::Spirv;

fn inst(opcode: u16, operands: &[u32]) -> Vec<u32> {
    let mut v = vec![((operands.len() as u32 + 1) << 16) | opcode as u32];
    v.extend_from_slice(operands);
    v
}

fn module_words(instructions: &[Vec<u32>]) -> Vec<u32> {
    let mut words = vec![0x0723_0203u32, 0x0001_0000, 0, 100, 0];
    for i in instructions {
        words.extend_from_slice(i);
    }
    words
}

#[test]
fn decode_minimal_module() {
    let words = module_words(&[inst(17, &[1])]);
    let g = Spirv::new(&words).unwrap();
    assert_eq!(g.version().major, 1);
    assert_eq!(g.version().minor, 0);
    assert_eq!(g.bound(), 100);
    assert_eq!(g.len(), 1);
    assert_eq!(g.inst_at(0).opcode, 17);
    assert_eq!(g.inst_at(0).operands, vec![1]);
    assert_eq!(g.capabilities(), &vec![1u32]);
}

#[test]
fn decode_version_field() {
    let words = vec![0x0723_0203u32, 0x0001_0400, 0, 8, 0];
    let g = Spirv::new(&words).unwrap();
    assert_eq!(g.version().major, 1);
    assert_eq!(g.version().minor, 4);
    assert_eq!(g.len(), 0);
}

#[test]
fn decode_rejects_short_stream() {
    let words = vec![0x0723_0203u32, 0x0001_0000, 0];
    assert_eq!(Spirv::new(&words).unwrap_err(), DecodeError::MissingHeader);
}

#[test]
fn decode_rejects_bad_magic() {
    let words = vec![0x1234_5678u32, 0x0001_0000, 0, 8, 0];
    assert_eq!(Spirv::new(&words).unwrap_err(), DecodeError::MismatchedMagicNumber);
}

#[test]
fn decode_rejects_bad_major_version() {
    let words = vec![0x0723_0203u32, 0x0002_0000, 0, 8, 0];
    assert_eq!(
        Spirv::new(&words).unwrap_err(),
        DecodeError::UnsupportedMajorVersion { major: 2 }
    );
}

#[test]
fn decode_rejects_bad_schema() {
    let words = vec![0x0723_0203u32, 0x0001_0000, 0, 8, 7];
    assert_eq!(Spirv::new(&words).unwrap_err(), DecodeError::MismatchedSchema { schema: 7 });
}

#[test]
fn decode_rejects_zero_word_count() {
    let mut words = module_words(&[]);
    words.push(17);
    assert_eq!(
        Spirv::new(&words).unwrap_err(),
        DecodeError::ZeroWordCountInstruction { offset: 5 }
    );
}

#[test]
fn decode_rejects_truncated_instruction() {
    let mut words = module_words(&[]);
    words.push((3u32 << 16) | 17);
    assert_eq!(
        Spirv::new(&words).unwrap_err(),
        DecodeError::TruncatedInstruction { offset: 5 }
    );
}

#[test]
fn decode_retains_unknown_opcodes() {
    let words = module_words(&[inst(9999, &[4, 5, 6])]);
    let g = Spirv::new(&words).unwrap();
    assert_eq!(g.len(), 1);
    assert_eq!(g.inst_at(0).opcode, 9999);
    assert_eq!(g.inst_at(0).operands, vec![4, 5, 6]);
}

#[test]
fn decode_extension_names() {
    // "SPV_X" -> 53 50 56 5F 58 00 -> words 0x5F565053, 0x00000058
    let words = module_words(&[inst(10, &[0x5F56_5053, 0x0000_0058])]);
    let g = Spirv::new(&words).unwrap();
    assert_eq!(g.extensions().len(), 1);
    assert_eq!(g.extensions()[0], b"SPV_X".to_vec());
}

#[test]
fn bytes_to_words_little_endian() {
    let bytes = [0x03u8, 0x02, 0x23, 0x07, 0xAA, 0xBB, 0xCC, 0xDD];
    let words = spirv::bytes_to_words(&bytes).unwrap();
    assert_eq!(words, vec![0x0723_0203u32, 0xDDCC_BBAA]);
}

#[test]
fn bytes_to_words_rejects_odd_length() {
    let bytes = [0x03u8, 0x02, 0x23];
    assert!(spirv::bytes_to_words(&bytes).is_none());
}

#[test]
fn decoding_twice_is_deterministic() {
    // "main" -> 0x6E69616D, 0x00000000
    let words = module_words(&[
        inst(17, &[1]),
        inst(15, &[4, 20, 0x6E69_616D, 0]),
        inst(54, &[1, 20, 0, 2]),
        inst(56, &[]),
    ]);
    let g1 = Spirv::new(&words).unwrap();
    let g2 = Spirv::new(&words).unwrap();
    assert_eq!(g1.len(), g2.len());
    let e1 = shader_reflect::reflect::entry_points(&g1);
    let e2 = shader_reflect::reflect::entry_points(&g2);
    assert_eq!(e1.len(), 1);
    assert_eq!(e1.len(), e2.len());
    assert_eq!(e1[0].0, e2[0].0);
    assert_eq!(e1[0].1.name, e2[0].1.name);
    assert_eq!(e1[0].1.name, b"main".to_vec());
    assert_eq!(e1[0].1.execution_model, e2[0].1.execution_model);
}
