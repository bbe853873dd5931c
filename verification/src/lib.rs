//! Reflection and specialization of SPIR-V shader modules.
//!
//! A shader module is decoded from a stream of 32-bit words into a
//! structured instruction graph. From that graph the library extracts entry
//! points, the descriptor-binding requirements they impose, push-constant
//! ranges, and input/output interfaces, and can produce specialized variants
//! where compile-time constants are substituted before the module is
//! considered ready for use. Requirements contributed by several shader
//! stages can be merged into one consistent contract, and the interfaces of
//! adjacent stages can be checked for structural compatibility.

use vstd::prelude::*;

pub mod formats;
pub mod idmap;
pub mod interface;
pub mod module;
pub mod private_data;
pub mod reflect;
pub mod requirements;
pub mod spec_constant;
pub mod spirv;
pub mod stages;

pub use formats::DescriptorType;
pub use formats::Format;
pub use formats::ImageViewType;
pub use formats::NumericType;
pub use idmap::KeyMap;
pub use interface::InterfaceMatchError;
pub use interface::ShaderInterface;
pub use interface::ShaderInterfaceEntry;
pub use interface::ShaderInterfaceEntryType;
pub use module::DeviceEnvironment;
pub use module::EntryPoint;
pub use module::ShaderModule;
pub use module::ShaderModuleCreateInfo;
pub use module::ShaderModuleError;
pub use module::SpecializationError;
pub use module::SpecializedShaderModule;
pub use module::ValidationError;
pub use private_data::PrivateDataSlotCreateInfo;
pub use reflect::EntryPointInfo;
pub use requirements::DescriptorBindingRequirements;
pub use requirements::DescriptorIdentifier;
pub use requirements::DescriptorRequirements;
pub use requirements::MergeError;
pub use requirements::PushConstantRange;
pub use spec_constant::SpecializationConstant;
pub use spirv::DecodeError;
pub use spirv::Instruction;
pub use spirv::Spirv;
pub use spirv::Version;
pub use stages::ExecutionModel;
pub use stages::PipelineStages;
pub use stages::ShaderStage;
pub use stages::ShaderStages;

verus! {

} // verus!
