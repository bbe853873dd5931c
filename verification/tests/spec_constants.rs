use shader_reflect::reflect;
use shader_reflect::DeviceEnvironment;
use shader_reflect::KeyMap;
use shader_reflect::ShaderModule;
use shader_reflect::SpecializationConstant;
use shader_reflect::SpecializationError;
use shader_reflect::Version;

fn inst(opcode: u16, operands: &[u32]) -> Vec<u32> {
    let mut v = vec![((operands.len() as u32 + 1) << 16) | opcode as u32];
    v.extend_from_slice(operands);
    v
}

fn module_words(instructions: &[Vec<u32>]) -> Vec<u32> {
    let mut words = vec![0x0723_0203u32, 0x0001_0000, 0, 100, 0];
    for i in instructions {
        words.extend_from_slice(i);
    }
    words
}

fn env() -> DeviceEnvironment {
    DeviceEnvironment {
        api_version: Version { major: 1, minor: 3 },
        khr_spirv_1_4: false,
        supported_capabilities: vec![1],
        supported_extensions: vec![],
    }
}

/// A compute module declaring a 32-bit unsigned constant with
/// specialization-constant ID 5 and default 42, and a boolean constant with
/// ID 6 and default true.
fn spec_module_words() -> Vec<u32> {
    module_words(&[
        inst(17, &[1]),                       // capability
        inst(15, &[5, 20, 0x6E69_616D, 0]),   // entry point GLCompute %20 "main"
        inst(71, &[7, 1, 5]),                 // %7 SpecId 5
        inst(71, &[8, 1, 6]),                 // %8 SpecId 6
        inst(21, &[3, 32, 0]),                // %3 = int 32 unsigned
        inst(20, &[4]),                       // %4 = bool
        inst(50, &[3, 7, 42]),                // %7 = spec constant 42
        inst(48, &[4, 8]),                    // %8 = spec constant true
        inst(54, &[1, 20, 0, 2]),             // %20 = function
        inst(56, &[]),                        // function end
    ])
}

#[test]
fn as_bytes_is_little_endian() {
    assert_eq!(SpecializationConstant::Bool(false).as_bytes(), vec![0, 0, 0, 0]);
    assert_eq!(SpecializationConstant::Bool(true).as_bytes(), vec![1, 0, 0, 0]);
    assert_eq!(SpecializationConstant::U8(0xAB).as_bytes(), vec![0xAB]);
    assert_eq!(SpecializationConstant::U16(0xBEEF).as_bytes(), vec![0xEF, 0xBE]);
    assert_eq!(
        SpecializationConstant::U32(0x1234_5678).as_bytes(),
        vec![0x78, 0x56, 0x34, 0x12]
    );
    assert_eq!(
        SpecializationConstant::U64(0x0102_0304_0506_0708).as_bytes(),
        vec![8, 7, 6, 5, 4, 3, 2, 1]
    );
    assert_eq!(SpecializationConstant::I8(-1).as_bytes(), vec![0xFF]);
    assert_eq!(SpecializationConstant::I16(-2).as_bytes(), vec![0xFE, 0xFF]);
    assert_eq!(SpecializationConstant::I32(-3).as_bytes(), vec![0xFD, 0xFF, 0xFF, 0xFF]);
    assert_eq!(
        SpecializationConstant::I64(-4).as_bytes(),
        vec![0xFC, 0xFF, 0xFF, 0xFF, 0xFF, 0xFF, 0xFF, 0xFF]
    );
    let half_bits = half::f16::from_f32(1.5).to_bits();
    assert_eq!(half_bits, 0x3E00);
    assert_eq!(SpecializationConstant::F16(half_bits).as_bytes(), vec![0x00, 0x3E]);
    assert_eq!(
        SpecializationConstant::F32(1.5f32.to_bits()).as_bytes(),
        vec![0x00, 0x00, 0xC0, 0x3F]
    );
    assert_eq!(
        SpecializationConstant::F64(1.5f64.to_bits()).as_bytes(),
        vec![0, 0, 0, 0, 0, 0, 0xF8, 0x3F]
    );
}

#[test]
fn eq_type_compares_variants_only() {
    let a = SpecializationConstant::U32(1);
    let b = SpecializationConstant::U32(2);
    let c = SpecializationConstant::I32(1);
    assert!(a.eq_type(&b));
    assert!(!a.eq_type(&c));
    assert!(SpecializationConstant::Bool(true).eq_type(&SpecializationConstant::Bool(false)));
    assert!(!SpecializationConstant::F32(0).eq_type(&SpecializationConstant::U32(0)));
}

#[test]
fn reflects_declared_constants() {
    let words = spec_module_words();
    let env = env();
    let m = ShaderModule::from_words(&env, &words).unwrap();
    let consts = m.specialization_constants();
    assert_eq!(consts.len(), 2);
    assert_eq!(consts.get(5), Some(&SpecializationConstant::U32(42)));
    assert_eq!(consts.get(6), Some(&SpecializationConstant::Bool(true)));
}

#[test]
fn specialize_without_overrides_matches_base_reflection() {
    let words = spec_module_words();
    let env = env();
    let m = ShaderModule::from_words(&env, &words).unwrap();
    let plain = m.specialize(KeyMap::new()).unwrap();
    let mut matching: KeyMap<SpecializationConstant> = KeyMap::new();
    matching.insert(5, SpecializationConstant::U32(42));
    matching.insert(6, SpecializationConstant::Bool(true));
    let same = m.specialize(matching).unwrap();
    assert_eq!(plain.entry_point_count(), 1);
    assert_eq!(same.entry_point_count(), 1);
    let (id_a, info_a) = plain.entry_point_at(0);
    let (id_b, info_b) = same.entry_point_at(0);
    assert_eq!(id_a, id_b);
    assert_eq!(info_a.name, info_b.name);
    assert_eq!(info_a.execution_model, info_b.execution_model);
    assert_eq!(
        info_a.descriptor_binding_requirements.len(),
        info_b.descriptor_binding_requirements.len()
    );
    // The matching overrides leave the constants' literal words untouched.
    let g = same.spirv();
    let reread = reflect::specialization_constants(g);
    assert_eq!(reread.get(5), Some(&SpecializationConstant::U32(42)));
    assert_eq!(reread.get(6), Some(&SpecializationConstant::Bool(true)));
}

#[test]
fn specialize_rewrites_literal_words() {
    let words = spec_module_words();
    let env = env();
    let m = ShaderModule::from_words(&env, &words).unwrap();
    let mut info: KeyMap<SpecializationConstant> = KeyMap::new();
    info.insert(5, SpecializationConstant::U32(7));
    info.insert(6, SpecializationConstant::Bool(false));
    let s = m.specialize(info).unwrap();
    let reread = reflect::specialization_constants(s.spirv());
    assert_eq!(reread.get(5), Some(&SpecializationConstant::U32(7)));
    assert_eq!(reread.get(6), Some(&SpecializationConstant::Bool(false)));
    // The base module is unaffected.
    let base = reflect::specialization_constants(m.specialize(KeyMap::new()).unwrap().spirv());
    assert_eq!(base.get(5), Some(&SpecializationConstant::U32(42)));
}

#[test]
fn specialize_rejects_type_mismatch() {
    let words = spec_module_words();
    let env = env();
    let m = ShaderModule::from_words(&env, &words).unwrap();
    let mut info: KeyMap<SpecializationConstant> = KeyMap::new();
    info.insert(5, SpecializationConstant::I64(1));
    let r = m.specialize(info);
    assert_eq!(r.err().unwrap(), SpecializationError::TypeMismatch { constant_id: 5 });
    // The base module remains usable and unchanged.
    assert_eq!(
        m.specialization_constants().get(5),
        Some(&SpecializationConstant::U32(42))
    );
    let mut ok: KeyMap<SpecializationConstant> = KeyMap::new();
    ok.insert(5, SpecializationConstant::U32(1));
    assert!(m.specialize(ok).is_ok());
}

#[test]
fn specialize_ignores_unknown_constant_ids() {
    let words = spec_module_words();
    let env = env();
    let m = ShaderModule::from_words(&env, &words).unwrap();
    let mut info: KeyMap<SpecializationConstant> = KeyMap::new();
    info.insert(99, SpecializationConstant::F64(0));
    let s = m.specialize(info).unwrap();
    let reread = reflect::specialization_constants(s.spirv());
    assert_eq!(reread.get(5), Some(&SpecializationConstant::U32(42)));
}
