use shader_reflect::requirements::index_key;
use shader_reflect::reflect::binding_key;
use shader_reflect::DescriptorType;
use shader_reflect::DescriptorBindingRequirements;
use shader_reflect::DescriptorRequirements;
use shader_reflect::DeviceEnvironment;
use shader_reflect::ExecutionModel;
use shader_reflect::ImageViewType;
use shader_reflect::KeyMap;
use shader_reflect::NumericType;
use shader_reflect::ShaderModule;
use shader_reflect::Version;

fn inst(opcode: u16, operands: &[u32]) -> Vec<u32> {
    let mut v = vec![((operands.len() as u32 + 1) << 16) | opcode as u32];
    v.extend_from_slice(operands);
    v
}

fn module_words(instructions: &[Vec<u32>]) -> Vec<u32> {
    let mut words = vec![0x0723_0203u32, 0x0001_0000, 0, 100, 0];
    for i in instructions {
        words.extend_from_slice(i);
    }
    words
}

fn env() -> DeviceEnvironment {
    DeviceEnvironment {
        api_version: Version { major: 1, minor: 3 },
        khr_spirv_1_4: false,
        supported_capabilities: vec![1],
        supported_extensions: vec![],
    }
}

const MAIN_W1: u32 = 0x6E69_616D; // "main"
const MAIN_W2: u32 = 0;

/// A fragment stage with one `vec4 float32` input at location 0, one output
/// at location 0, and a combined image sampler at set 0, binding 0, which
/// it samples with implicit level of detail.
fn fragment_module_words() -> Vec<u32> {
    module_words(&[
        inst(17, &[1]),
        inst(15, &[4, 20, MAIN_W1, MAIN_W2, 10, 11]),
        inst(5, &[10, 0x0000_0063]), // OpName %10 "c"
        inst(71, &[10, 30, 0]),
        inst(71, &[11, 30, 0]),
        inst(71, &[12, 34, 0]),
        inst(71, &[12, 33, 0]),
        inst(19, &[1]),
        inst(33, &[2, 1]),
        inst(22, &[3, 32]),
        inst(23, &[4, 3, 4]),
        inst(32, &[5, 1, 4]),
        inst(32, &[6, 3, 4]),
        inst(25, &[7, 3, 1, 0, 0, 0, 1, 0]),
        inst(27, &[8, 7]),
        inst(32, &[9, 0, 8]),
        inst(59, &[5, 10, 1]),
        inst(59, &[6, 11, 3]),
        inst(59, &[9, 12, 0]),
        inst(54, &[1, 20, 0, 2]),
        inst(248, &[21]),
        inst(61, &[8, 22, 12]),
        inst(61, &[4, 23, 10]),
        inst(87, &[4, 24, 22, 23]),
        inst(62, &[11, 24]),
        inst(253, &[]),
        inst(56, &[]),
    ])
}

/// A vertex stage with one `vec4 float32` output at location 0 and a
/// uniform buffer at set 0, binding 0, which it reads.
fn vertex_module_words() -> Vec<u32> {
    module_words(&[
        inst(17, &[1]),
        inst(15, &[0, 20, MAIN_W1, MAIN_W2, 10]),
        inst(71, &[10, 30, 0]),
        inst(71, &[6, 2]),
        inst(72, &[6, 0, 35, 0]),
        inst(71, &[11, 34, 0]),
        inst(71, &[11, 33, 0]),
        inst(19, &[1]),
        inst(33, &[2, 1]),
        inst(22, &[3, 32]),
        inst(23, &[4, 3, 4]),
        inst(32, &[5, 3, 4]),
        inst(30, &[6, 4]),
        inst(32, &[7, 2, 6]),
        inst(59, &[5, 10, 3]),
        inst(59, &[7, 11, 2]),
        inst(54, &[1, 20, 0, 2]),
        inst(248, &[21]),
        inst(61, &[6, 22, 11]),
        inst(253, &[]),
        inst(56, &[]),
    ])
}

/// A fragment stage using the same uniform buffer at set 0, binding 0.
fn fragment_ubo_module_words() -> Vec<u32> {
    module_words(&[
        inst(17, &[1]),
        inst(15, &[4, 20, MAIN_W1, MAIN_W2]),
        inst(71, &[6, 2]),
        inst(72, &[6, 0, 35, 0]),
        inst(71, &[11, 34, 0]),
        inst(71, &[11, 33, 0]),
        inst(19, &[1]),
        inst(33, &[2, 1]),
        inst(22, &[3, 32]),
        inst(23, &[4, 3, 4]),
        inst(30, &[6, 4]),
        inst(32, &[7, 2, 6]),
        inst(59, &[7, 11, 2]),
        inst(54, &[1, 20, 0, 2]),
        inst(248, &[21]),
        inst(61, &[6, 22, 11]),
        inst(253, &[]),
        inst(56, &[]),
    ])
}

fn dup(b: &DescriptorBindingRequirements) -> DescriptorBindingRequirements {
    let mut descriptors: KeyMap<DescriptorRequirements> = KeyMap::new();
    let mut i = 0;
    while i < b.descriptors.len() {
        let e = b.descriptors.entry_at(i);
        let v = e.1.duplicate();
        descriptors.insert(e.0, v);
        i += 1;
    }
    DescriptorBindingRequirements {
        descriptor_types: b.descriptor_types.clone(),
        descriptor_count: b.descriptor_count,
        image_format: b.image_format,
        image_multisampled: b.image_multisampled,
        image_scalar_type: b.image_scalar_type,
        image_view_type: b.image_view_type,
        stages: b.stages,
        descriptors,
    }
}

#[test]
fn vertex_and_fragment_pair_reflects_and_matches() {
    let env = env();
    let vertex = ShaderModule::from_words(&env, &vertex_module_words()).unwrap();
    let fragment = ShaderModule::from_words(&env, &fragment_module_words()).unwrap();

    let v = vertex.entry_point(b"main").unwrap();
    let f = fragment.entry_point(b"main").unwrap();
    assert_eq!(v.info().execution_model, ExecutionModel::Vertex);
    assert_eq!(f.info().execution_model, ExecutionModel::Fragment);

    // The vertex output interface matches the fragment input interface.
    assert!(v.info().output_interface.matches(&f.info().input_interface).is_ok());
    assert_eq!(v.info().output_interface.elements().len(), 1);
    let out = &v.info().output_interface.elements()[0];
    assert_eq!(out.location, 0);
    assert_eq!(out.ty.base_type, NumericType::Float);
    assert_eq!(out.ty.num_components, 4);
    assert_eq!(out.ty.num_elements, 1);
    assert!(!out.ty.is_64bit);

    // The fragment input entry carries its debug name.
    let finp = &f.info().input_interface.elements()[0];
    assert_eq!(finp.name, Some(b"c".to_vec()));

    // The fragment stage requires exactly one combined image sampler at
    // set 0, binding 0, with the fragment stage bit.
    let reqs = &f.info().descriptor_binding_requirements;
    assert_eq!(reqs.len(), 1);
    let dbr = reqs.get(binding_key(0, 0)).unwrap();
    assert_eq!(dbr.descriptor_types, vec![DescriptorType::CombinedImageSampler]);
    assert_eq!(dbr.descriptor_count, Some(1));
    assert_eq!(dbr.stages.bits, 0x10);
    assert_eq!(dbr.image_format, None);
    assert_eq!(dbr.image_scalar_type, Some(NumericType::Float));
    assert_eq!(dbr.image_view_type, Some(ImageViewType::Dim2d));
    assert!(!dbr.image_multisampled);

    // The sampler is loaded and sampled with implicit level of detail.
    let dr = dbr.descriptors.get(index_key(Some(0))).unwrap();
    assert_eq!(dr.memory_read.bits, 0x10);
    assert_eq!(dr.memory_write.bits, 0);
    assert!(dr.sampler_no_unnormalized_coordinates);
    assert!(!dr.sampler_compare);
    assert!(!dr.sampler_no_ycbcr_conversion);
}

#[test]
fn merged_multi_stage_descriptor_unites_stage_bits() {
    let env = env();
    let vertex = ShaderModule::from_words(&env, &vertex_module_words()).unwrap();
    let fragment = ShaderModule::from_words(&env, &fragment_ubo_module_words()).unwrap();
    let v = vertex.entry_point(b"main").unwrap();
    let f = fragment.entry_point(b"main").unwrap();

    let key = binding_key(0, 0);
    let v_req = v.info().descriptor_binding_requirements.get(key).unwrap();
    let f_req = f.info().descriptor_binding_requirements.get(key).unwrap();
    assert_eq!(v_req.stages.bits, 0x1);
    assert_eq!(f_req.stages.bits, 0x10);

    let mut merged = dup(v_req);
    merged.merge(f_req).unwrap();
    assert_eq!(merged.stages.bits, 0x11);
    assert_eq!(
        merged.descriptor_types,
        vec![DescriptorType::UniformBuffer, DescriptorType::UniformBufferDynamic]
    );
    assert_eq!(merged.descriptor_count, Some(1));
}

#[test]
fn uniform_buffer_reads_are_recorded() {
    let env = env();
    let vertex = ShaderModule::from_words(&env, &vertex_module_words()).unwrap();
    let v = vertex.entry_point(b"main").unwrap();
    let dbr = v.info().descriptor_binding_requirements.get(binding_key(0, 0)).unwrap();
    let dr = dbr.descriptors.get(index_key(Some(0))).unwrap();
    assert_eq!(dr.memory_read.bits, 0x1);
    assert_eq!(dr.memory_write.bits, 0);
}

#[test]
fn push_constant_range_covers_the_block() {
    let env = env();
    let words = module_words(&[
        inst(17, &[1]),
        inst(15, &[0, 20, MAIN_W1, MAIN_W2]),
        inst(72, &[6, 0, 35, 0]),
        inst(72, &[6, 1, 35, 16]),
        inst(19, &[1]),
        inst(33, &[2, 1]),
        inst(22, &[3, 32]),
        inst(23, &[4, 3, 4]),
        inst(30, &[6, 4, 3]),
        inst(32, &[7, 9, 6]),
        inst(59, &[7, 11, 9]),
        inst(54, &[1, 20, 0, 2]),
        inst(248, &[21]),
        inst(61, &[6, 22, 11]),
        inst(253, &[]),
        inst(56, &[]),
    ]);
    let m = ShaderModule::from_words(&env, &words).unwrap();
    let ep = m.entry_point(b"main").unwrap();
    let range = ep.info().push_constant_requirements.unwrap();
    assert_eq!(range.offset, 0);
    assert_eq!(range.size, 20);
    assert_eq!(range.stages.bits, 0x1);
}

#[test]
fn entry_point_lookup_requires_exactly_one_match() {
    let env = env();
    let words = module_words(&[
        inst(17, &[1]),
        inst(15, &[0, 20, MAIN_W1, MAIN_W2]),
        inst(15, &[4, 30, MAIN_W1, MAIN_W2]),
        inst(19, &[1]),
        inst(33, &[2, 1]),
        inst(54, &[1, 20, 0, 2]),
        inst(253, &[]),
        inst(56, &[]),
        inst(54, &[1, 30, 0, 2]),
        inst(253, &[]),
        inst(56, &[]),
    ]);
    let m = ShaderModule::from_words(&env, &words).unwrap();
    // Two entry points share the name: ambiguity counts as not found.
    assert!(m.entry_point(b"main").is_none());
    assert!(m.single_entry_point().is_none());
    // Narrowing by execution model disambiguates.
    let f = m.entry_point_with_execution(b"main", ExecutionModel::Fragment).unwrap();
    assert_eq!(f.info().execution_model, ExecutionModel::Fragment);
    let v = m.single_entry_point_with_execution(ExecutionModel::Vertex).unwrap();
    assert_eq!(v.info().execution_model, ExecutionModel::Vertex);
    assert!(m.entry_point(b"other").is_none());
}

#[test]
fn interface_listed_resources_are_reached() {
    // The uniform buffer appears only in the entry point's interface list,
    // as newer binaries declare it; no instruction mentions it.
    let env = env();
    let words = module_words(&[
        inst(17, &[1]),
        inst(15, &[0, 20, MAIN_W1, MAIN_W2, 11]),
        inst(71, &[6, 2]),
        inst(72, &[6, 0, 35, 0]),
        inst(71, &[11, 34, 0]),
        inst(71, &[11, 33, 2]),
        inst(19, &[1]),
        inst(33, &[2, 1]),
        inst(22, &[3, 32]),
        inst(23, &[4, 3, 4]),
        inst(30, &[6, 4]),
        inst(32, &[7, 2, 6]),
        inst(59, &[7, 11, 2]),
        inst(54, &[1, 20, 0, 2]),
        inst(248, &[21]),
        inst(253, &[]),
        inst(56, &[]),
    ]);
    let m = ShaderModule::from_words(&env, &words).unwrap();
    let ep = m.entry_point(b"main").unwrap();
    let dbr = ep.info().descriptor_binding_requirements.get(binding_key(0, 2)).unwrap();
    assert_eq!(
        dbr.descriptor_types,
        vec![DescriptorType::UniformBuffer, DescriptorType::UniformBufferDynamic]
    );
    assert_eq!(dbr.stages.bits, 0x1);
    // No instruction reads or writes it, so no per-descriptor use is
    // recorded.
    assert_eq!(dbr.descriptors.len(), 0);
}

#[test]
fn builtin_variables_are_not_interface_elements() {
    let env = env();
    // An output variable decorated as a built-in position contributes
    // nothing to the interface.
    let words = module_words(&[
        inst(17, &[1]),
        inst(15, &[0, 20, MAIN_W1, MAIN_W2, 10]),
        inst(71, &[10, 11, 0]), // BuiltIn Position
        inst(19, &[1]),
        inst(33, &[2, 1]),
        inst(22, &[3, 32]),
        inst(23, &[4, 3, 4]),
        inst(32, &[5, 3, 4]),
        inst(59, &[5, 10, 3]),
        inst(54, &[1, 20, 0, 2]),
        inst(253, &[]),
        inst(56, &[]),
    ]);
    let m = ShaderModule::from_words(&env, &words).unwrap();
    let ep = m.entry_point(b"main").unwrap();
    assert_eq!(ep.info().output_interface.elements().len(), 0);
    assert!(ep.info().push_constant_requirements.is_none());
    assert_eq!(ep.info().descriptor_binding_requirements.len(), 0);
}
