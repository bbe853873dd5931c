use shader_reflect::DescriptorBindingRequirements;
use shader_reflect::DescriptorIdentifier;
use shader_reflect::DescriptorRequirements;
use shader_reflect::DescriptorType;
use shader_reflect::Format;
use shader_reflect::ImageViewType;
use shader_reflect::KeyMap;
use shader_reflect::MergeError;
use shader_reflect::NumericType;
use shader_reflect::ShaderStages;

fn binding(types: &[DescriptorType], stages: u32) -> DescriptorBindingRequirements {
    DescriptorBindingRequirements {
        descriptor_types: types.to_vec(),
        descriptor_count: None,
        image_format: None,
        image_multisampled: false,
        image_scalar_type: None,
        image_view_type: None,
        stages: ShaderStages { bits: stages },
        descriptors: KeyMap::new(),
    }
}

fn dup(b: &DescriptorBindingRequirements) -> DescriptorBindingRequirements {
    let mut descriptors: KeyMap<DescriptorRequirements> = KeyMap::new();
    let mut i = 0;
    while i < b.descriptors.len() {
        let e = b.descriptors.entry_at(i);
        let v = e.1.duplicate();
        descriptors.insert(e.0, v);
        i += 1;
    }
    DescriptorBindingRequirements {
        descriptor_types: b.descriptor_types.clone(),
        descriptor_count: b.descriptor_count,
        image_format: b.image_format,
        image_multisampled: b.image_multisampled,
        image_scalar_type: b.image_scalar_type,
        image_view_type: b.image_view_type,
        stages: b.stages,
        descriptors,
    }
}

fn type_set(b: &DescriptorBindingRequirements) -> Vec<DescriptorType> {
    let mut v = b.descriptor_types.clone();
    v.sort_by_key(|t| format!("{:?}", t));
    v
}

#[test]
fn merge_unites_stages_and_intersects_types() {
    let mut a = binding(
        &[DescriptorType::UniformBuffer, DescriptorType::UniformBufferDynamic],
        0x1,
    );
    let b = binding(
        &[DescriptorType::UniformBuffer, DescriptorType::UniformBufferDynamic],
        0x10,
    );
    a.merge(&b).unwrap();
    assert_eq!(a.stages.bits, 0x11);
    assert_eq!(
        a.descriptor_types,
        vec![DescriptorType::UniformBuffer, DescriptorType::UniformBufferDynamic]
    );
}

#[test]
fn merge_takes_the_stricter_count() {
    let mut a = binding(&[DescriptorType::SampledImage], 0x1);
    a.descriptor_count = None;
    let mut b = binding(&[DescriptorType::SampledImage], 0x1);
    b.descriptor_count = Some(4);
    a.merge(&b).unwrap();
    assert_eq!(a.descriptor_count, Some(4));
    let mut c = binding(&[DescriptorType::SampledImage], 0x1);
    c.descriptor_count = Some(9);
    a.merge(&c).unwrap();
    assert_eq!(a.descriptor_count, Some(9));
}

#[test]
fn merge_rejects_disjoint_type_sets() {
    let mut a = binding(&[DescriptorType::UniformBuffer], 0x1);
    let b = binding(&[DescriptorType::StorageImage], 0x10);
    assert_eq!(a.merge(&b).unwrap_err(), MergeError::DescriptorTypesNotOverlapping);
    // No partial merge is applied.
    assert_eq!(a.stages.bits, 0x1);
    assert_eq!(a.descriptor_types, vec![DescriptorType::UniformBuffer]);
}

#[test]
fn merge_rejects_different_formats() {
    let mut a = binding(&[DescriptorType::StorageImage], 0x1);
    a.image_format = Some(Format::R8G8B8A8_UNORM);
    let mut b = binding(&[DescriptorType::StorageImage], 0x10);
    b.image_format = Some(Format::R16G16_SFLOAT);
    assert_eq!(a.merge(&b).unwrap_err(), MergeError::ImageFormatMismatch);
    assert_eq!(a.image_format, Some(Format::R8G8B8A8_UNORM));
}

#[test]
fn merge_rejects_different_scalar_types() {
    let mut a = binding(&[DescriptorType::StorageImage], 0x1);
    a.image_scalar_type = Some(NumericType::Float);
    let mut b = binding(&[DescriptorType::StorageImage], 0x10);
    b.image_scalar_type = Some(NumericType::Uint);
    assert_eq!(a.merge(&b).unwrap_err(), MergeError::ImageScalarTypeMismatch);
}

#[test]
fn merge_rejects_different_view_types() {
    let mut a = binding(&[DescriptorType::StorageImage], 0x1);
    a.image_view_type = Some(ImageViewType::Dim2d);
    let mut b = binding(&[DescriptorType::StorageImage], 0x10);
    b.image_view_type = Some(ImageViewType::Cube);
    assert_eq!(a.merge(&b).unwrap_err(), MergeError::ImageViewTypeMismatch);
}

#[test]
fn merge_rejects_different_multisampling() {
    let mut a = binding(&[DescriptorType::StorageImage], 0x1);
    a.image_multisampled = true;
    let b = binding(&[DescriptorType::StorageImage], 0x10);
    assert_eq!(a.merge(&b).unwrap_err(), MergeError::ImageMultisampledMismatch);
}

#[test]
fn merge_keeps_whichever_side_fixes_a_constraint() {
    let mut a = binding(&[DescriptorType::StorageImage], 0x1);
    let mut b = binding(&[DescriptorType::StorageImage], 0x10);
    b.image_format = Some(Format::R32_SFLOAT);
    b.image_scalar_type = Some(NumericType::Float);
    b.image_view_type = Some(ImageViewType::Dim2d);
    a.merge(&b).unwrap();
    assert_eq!(a.image_format, Some(Format::R32_SFLOAT));
    assert_eq!(a.image_scalar_type, Some(NumericType::Float));
    assert_eq!(a.image_view_type, Some(ImageViewType::Dim2d));
}

#[test]
fn merge_is_commutative_and_associative_on_concrete_values() {
    let make = |stages: u32, count: Option<u32>| {
        let mut x = binding(
            &[DescriptorType::UniformBuffer, DescriptorType::UniformBufferDynamic],
            stages,
        );
        x.descriptor_count = count;
        x
    };
    let a = make(0x1, Some(1));
    let b = make(0x10, Some(3));
    let c = make(0x20, None);

    let mut ab = dup(&a);
    ab.merge(&b).unwrap();
    let mut ba = dup(&b);
    ba.merge(&a).unwrap();
    assert_eq!(type_set(&ab), type_set(&ba));
    assert_eq!(ab.descriptor_count, ba.descriptor_count);
    assert_eq!(ab.stages, ba.stages);
    assert_eq!(ab.image_format, ba.image_format);

    let mut ab_c = dup(&ab);
    ab_c.merge(&c).unwrap();
    let mut bc = dup(&b);
    bc.merge(&c).unwrap();
    let mut a_bc = dup(&a);
    a_bc.merge(&bc).unwrap();
    assert_eq!(type_set(&ab_c), type_set(&a_bc));
    assert_eq!(ab_c.descriptor_count, a_bc.descriptor_count);
    assert_eq!(ab_c.stages, a_bc.stages);
}

#[test]
fn merge_combines_per_descriptor_requirements() {
    let key = shader_reflect::requirements::index_key(Some(0));
    let mut da = DescriptorRequirements::none();
    da.memory_read = ShaderStages { bits: 0x1 };
    da.sampler_with_images.push(DescriptorIdentifier { set: 0, binding: 1, index: 0 });
    let mut a = binding(&[DescriptorType::CombinedImageSampler], 0x1);
    a.descriptors.insert(key, da);

    let mut db = DescriptorRequirements::none();
    db.memory_write = ShaderStages { bits: 0x10 };
    db.sampler_compare = true;
    db.sampler_with_images.push(DescriptorIdentifier { set: 0, binding: 2, index: 0 });
    let mut b = binding(&[DescriptorType::CombinedImageSampler], 0x10);
    b.descriptors.insert(key, db);

    a.merge(&b).unwrap();
    let merged = a.descriptors.get(key).unwrap();
    assert_eq!(merged.memory_read.bits, 0x1);
    assert_eq!(merged.memory_write.bits, 0x10);
    assert!(merged.sampler_compare);
    assert_eq!(merged.sampler_with_images.len(), 2);
}

#[test]
fn descriptor_requirements_merge_is_a_union() {
    let mut a = DescriptorRequirements::none();
    a.memory_read = ShaderStages { bits: 0x1 };
    a.sampler_no_unnormalized_coordinates = true;
    let mut b = DescriptorRequirements::none();
    b.memory_read = ShaderStages { bits: 0x10 };
    b.sampler_no_ycbcr_conversion = true;
    b.storage_image_atomic = true;
    a.merge(&b);
    assert_eq!(a.memory_read.bits, 0x11);
    assert!(a.sampler_no_unnormalized_coordinates);
    assert!(a.sampler_no_ycbcr_conversion);
    assert!(a.storage_image_atomic);
}
