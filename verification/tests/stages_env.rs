use shader_reflect::module::ValidationError;
use shader_reflect::stages::PipelineStages;
use shader_reflect::DeviceEnvironment;
use shader_reflect::ExecutionModel;
use shader_reflect::PrivateDataSlotCreateInfo;
use shader_reflect::ShaderModule;
use shader_reflect::ShaderModuleCreateInfo;
use shader_reflect::ShaderModuleError;
use shader_reflect::ShaderStage;
use shader_reflect::ShaderStages;
use shader_reflect::Spirv;
use shader_reflect::Version;

fn inst(opcode: u16, operands: &[u32]) -> Vec<u32> {
    let mut v = vec![((operands.len() as u32 + 1) << 16) | opcode as u32];
    v.extend_from_slice(operands);
    v
}

fn module_words_versioned(version_word: u32, instructions: &[Vec<u32>]) -> Vec<u32> {
    let mut words = vec![0x0723_0203u32, version_word, 0, 100, 0];
    for i in instructions {
        words.extend_from_slice(i);
    }
    words
}

#[test]
fn stage_of_execution_model() {
    assert_eq!(
        ShaderStage::of_execution_model(ExecutionModel::Vertex),
        ShaderStage::Vertex
    );
    assert_eq!(
        ShaderStage::of_execution_model(ExecutionModel::Fragment),
        ShaderStage::Fragment
    );
    assert_eq!(
        ShaderStage::of_execution_model(ExecutionModel::GLCompute),
        ShaderStage::Compute
    );
    assert_eq!(
        ShaderStage::of_execution_model(ExecutionModel::MeshEXT),
        ShaderStage::Mesh
    );
    assert_eq!(
        ShaderStage::of_execution_model(ExecutionModel::RayGenerationKHR),
        ShaderStage::Raygen
    );
}

#[test]
fn stage_bits_and_set_operations() {
    assert_eq!(ShaderStage::Vertex.bit(), 0x1);
    assert_eq!(ShaderStage::Fragment.bit(), 0x10);
    assert_eq!(ShaderStages::all_graphics().bits, 0x1f);
    let s = ShaderStages::from_stage(ShaderStage::Vertex).union(ShaderStages::from_stage(
        ShaderStage::Fragment,
    ));
    assert_eq!(s.bits, 0x11);
    assert!(s.contains_stage(ShaderStage::Vertex));
    assert!(!s.contains_stage(ShaderStage::Compute));
    assert!(s.intersects(ShaderStages::all_graphics()));
    assert!(!s.intersects(ShaderStages::from_stage(ShaderStage::Compute)));
}

#[test]
fn pipeline_stages_of_shader_stages() {
    let s = ShaderStages { bits: 0x11 }; // vertex and fragment
    assert_eq!(PipelineStages::from_shader_stages(s).bits, 0x88);
    let rt = ShaderStages::from_stage(ShaderStage::Raygen).union(ShaderStages::from_stage(
        ShaderStage::Miss,
    ));
    assert_eq!(PipelineStages::from_shader_stages(rt).bits, 0x20_0000);
    assert_eq!(PipelineStages::from_shader_stages(ShaderStages::empty()).bits, 0);
    let compute = ShaderStages::from_stage(ShaderStage::Compute);
    assert_eq!(PipelineStages::from_shader_stages(compute).bits, 0x800);
}

#[test]
fn environment_rejects_missing_capability() {
    let env = DeviceEnvironment {
        api_version: Version { major: 1, minor: 3 },
        khr_spirv_1_4: false,
        supported_capabilities: vec![],
        supported_extensions: vec![],
    };
    let words = module_words_versioned(0x0001_0000, &[inst(17, &[1])]);
    let r = ShaderModule::from_words(&env, &words);
    assert_eq!(
        r.err().unwrap(),
        ShaderModuleError::Validation(ValidationError::CapabilityNotSupported { capability: 1 })
    );
}

#[test]
fn environment_rejects_missing_extension() {
    let env = DeviceEnvironment {
        api_version: Version { major: 1, minor: 3 },
        khr_spirv_1_4: false,
        supported_capabilities: vec![1],
        supported_extensions: vec![],
    };
    // OpExtension "SPV_X"
    let words = module_words_versioned(
        0x0001_0000,
        &[inst(17, &[1]), inst(10, &[0x5F56_5053, 0x0000_0058])],
    );
    let r = ShaderModule::from_words(&env, &words);
    assert_eq!(
        r.err().unwrap(),
        ShaderModuleError::Validation(ValidationError::ExtensionNotSupported { index: 0 })
    );
    let env_with = DeviceEnvironment {
        supported_extensions: vec![b"SPV_X".to_vec()],
        ..env
    };
    assert!(ShaderModule::from_words(&env_with, &words).is_ok());
}

#[test]
fn environment_checks_binary_version() {
    let old_api = DeviceEnvironment {
        api_version: Version { major: 1, minor: 1 },
        khr_spirv_1_4: false,
        supported_capabilities: vec![],
        supported_extensions: vec![],
    };
    let words_14 = module_words_versioned(0x0001_0400, &[]);
    assert_eq!(
        ShaderModule::from_words(&old_api, &words_14).err().unwrap(),
        ShaderModuleError::Validation(ValidationError::UnsupportedSpirvVersion {
            major: 1,
            minor: 4
        })
    );
    let with_ext = DeviceEnvironment { khr_spirv_1_4: true, ..old_api };
    assert!(ShaderModule::from_words(&with_ext, &words_14).is_ok());
    let words_13 = module_words_versioned(0x0001_0300, &[]);
    let api_10 = DeviceEnvironment {
        api_version: Version { major: 1, minor: 0 },
        khr_spirv_1_4: false,
        supported_capabilities: vec![],
        supported_extensions: vec![],
    };
    assert_eq!(
        ShaderModule::from_words(&api_10, &words_13).err().unwrap(),
        ShaderModuleError::Validation(ValidationError::UnsupportedSpirvVersion {
            major: 1,
            minor: 3
        })
    );
}

#[test]
fn validate_rejects_empty_code() {
    let env = DeviceEnvironment {
        api_version: Version { major: 1, minor: 3 },
        khr_spirv_1_4: false,
        supported_capabilities: vec![],
        supported_extensions: vec![],
    };
    let words = module_words_versioned(0x0001_0000, &[]);
    let spirv = Spirv::new(&words).unwrap();
    let empty: [u32; 0] = [];
    let info = ShaderModuleCreateInfo::new(&empty);
    assert_eq!(info.validate(&env, &spirv).unwrap_err(), ValidationError::EmptyCode);
}

#[test]
fn from_bytes_requires_whole_words() {
    let env = DeviceEnvironment {
        api_version: Version { major: 1, minor: 3 },
        khr_spirv_1_4: false,
        supported_capabilities: vec![],
        supported_extensions: vec![],
    };
    let words = module_words_versioned(0x0001_0000, &[]);
    let mut bytes: Vec<u8> = Vec::new();
    for w in &words {
        bytes.extend_from_slice(&w.to_le_bytes());
    }
    assert!(ShaderModule::from_bytes(&env, &bytes).is_ok());
    bytes.push(0);
    assert_eq!(
        ShaderModule::from_bytes(&env, &bytes).err().unwrap(),
        ShaderModuleError::InvalidByteLength
    );
}

#[test]
fn new_unchecked_skips_environment_validation() {
    // A capability no environment in this test supports is still accepted,
    // because no environment is consulted.
    let words = module_words_versioned(0x0001_0000, &[inst(17, &[9999])]);
    let m = ShaderModule::new_unchecked(ShaderModuleCreateInfo::new(&words)).unwrap();
    assert_eq!(m.specialization_constants().len(), 0);
}

#[test]
fn private_data_slot_parameters_validate() {
    let info = PrivateDataSlotCreateInfo::default();
    assert!(info.validate().is_ok());
}
