//! Scalar, image-format, descriptor and image-view vocabulary used by
//! reflection results.

use vstd::prelude::*;

verus! {

/// The base numeric interpretation of a scalar appearing in a shader
/// interface or image format.
#[derive(Clone, Copy, Debug, PartialEq, Eq, Structural)]
pub enum NumericType {
    /// Floating-point.
    Float,
    /// Signed integer.
    Int,
    /// Unsigned integer.
    Uint,
}

/// The format an image view must have, as far as shader instructions can
/// require one. Each variant corresponds to one image format expressible in
/// the instruction set.
#[allow(non_camel_case_types)]
#[derive(Clone, Copy, Debug, PartialEq, Eq, Structural)]
pub enum Format {
    R32G32B32A32_SFLOAT,
    R16G16B16A16_SFLOAT,
    R32_SFLOAT,
    R8G8B8A8_UNORM,
    R8G8B8A8_SNORM,
    R32G32_SFLOAT,
    R16G16_SFLOAT,
    B10G11R11_UFLOAT_PACK32,
    R16_SFLOAT,
    R16G16B16A16_UNORM,
    A2B10G10R10_UNORM_PACK32,
    R16G16_UNORM,
    R8G8_UNORM,
    R16_UNORM,
    R8_UNORM,
    R16G16B16A16_SNORM,
    R16G16_SNORM,
    R8G8_SNORM,
    R16_SNORM,
    R8_SNORM,
    R32G32B32A32_SINT,
    R16G16B16A16_SINT,
    R8G8B8A8_SINT,
    R32_SINT,
    R32G32_SINT,
    R16G16_SINT,
    R8G8_SINT,
    R16_SINT,
    R8_SINT,
    R32G32B32A32_UINT,
    R16G16B16A16_UINT,
    R8G8B8A8_UINT,
    R32_UINT,
    A2B10G10R10_UINT_PACK32,
    R32G32_UINT,
    R16G16_UINT,
    R8G8_UINT,
    R16_UINT,
    R8_UINT,
    R64_UINT,
    R64_SINT,
}

/// The format encoded by an image-type operand word; word 0 means that the
/// format is unknown and constrains nothing.
pub open spec fn spec_format_from_word(w: u32) -> Option<Format> {
    if w == 1 {
        Some(Format::R32G32B32A32_SFLOAT)
    } else if w == 2 {
        Some(Format::R16G16B16A16_SFLOAT)
    } else if w == 3 {
        Some(Format::R32_SFLOAT)
    } else if w == 4 {
        Some(Format::R8G8B8A8_UNORM)
    } else if w == 5 {
        Some(Format::R8G8B8A8_SNORM)
    } else if w == 6 {
        Some(Format::R32G32_SFLOAT)
    } else if w == 7 {
        Some(Format::R16G16_SFLOAT)
    } else if w == 8 {
        Some(Format::B10G11R11_UFLOAT_PACK32)
    } else if w == 9 {
        Some(Format::R16_SFLOAT)
    } else if w == 10 {
        Some(Format::R16G16B16A16_UNORM)
    } else if w == 11 {
        Some(Format::A2B10G10R10_UNORM_PACK32)
    } else if w == 12 {
        Some(Format::R16G16_UNORM)
    } else if w == 13 {
        Some(Format::R8G8_UNORM)
    } else if w == 14 {
        Some(Format::R16_UNORM)
    } else if w == 15 {
        Some(Format::R8_UNORM)
    } else if w == 16 {
        Some(Format::R16G16B16A16_SNORM)
    } else if w == 17 {
        Some(Format::R16G16_SNORM)
    } else if w == 18 {
        Some(Format::R8G8_SNORM)
    } else if w == 19 {
        Some(Format::R16_SNORM)
    } else if w == 20 {
        Some(Format::R8_SNORM)
    } else if w == 21 {
        Some(Format::R32G32B32A32_SINT)
    } else if w == 22 {
        Some(Format::R16G16B16A16_SINT)
    } else if w == 23 {
        Some(Format::R8G8B8A8_SINT)
    } else if w == 24 {
        Some(Format::R32_SINT)
    } else if w == 25 {
        Some(Format::R32G32_SINT)
    } else if w == 26 {
        Some(Format::R16G16_SINT)
    } else if w == 27 {
        Some(Format::R8G8_SINT)
    } else if w == 28 {
        Some(Format::R16_SINT)
    } else if w == 29 {
        Some(Format::R8_SINT)
    } else if w == 30 {
        Some(Format::R32G32B32A32_UINT)
    } else if w == 31 {
        Some(Format::R16G16B16A16_UINT)
    } else if w == 32 {
        Some(Format::R8G8B8A8_UINT)
    } else if w == 33 {
        Some(Format::R32_UINT)
    } else if w == 34 {
        Some(Format::A2B10G10R10_UINT_PACK32)
    } else if w == 35 {
        Some(Format::R32G32_UINT)
    } else if w == 36 {
        Some(Format::R16G16_UINT)
    } else if w == 37 {
        Some(Format::R8G8_UINT)
    } else if w == 38 {
        Some(Format::R16_UINT)
    } else if w == 39 {
        Some(Format::R8_UINT)
    } else if w == 40 {
        Some(Format::R64_UINT)
    } else if w == 41 {
        Some(Format::R64_SINT)
    } else {
        None
    }
}

/// Decodes the image-format operand word of an image type instruction.
pub fn format_from_word(w: u32) -> (r: Option<Format>)
    ensures
        r == spec_format_from_word(w),
{
    if w == 1 {
        Some(Format::R32G32B32A32_SFLOAT)
    } else if w == 2 {
        Some(Format::R16G16B16A16_SFLOAT)
    } else if w == 3 {
        Some(Format::R32_SFLOAT)
    } else if w == 4 {
        Some(Format::R8G8B8A8_UNORM)
    } else if w == 5 {
        Some(Format::R8G8B8A8_SNORM)
    } else if w == 6 {
        Some(Format::R32G32_SFLOAT)
    } else if w == 7 {
        Some(Format::R16G16_SFLOAT)
    } else if w == 8 {
        Some(Format::B10G11R11_UFLOAT_PACK32)
    } else if w == 9 {
        Some(Format::R16_SFLOAT)
    } else if w == 10 {
        Some(Format::R16G16B16A16_UNORM)
    } else if w == 11 {
        Some(Format::A2B10G10R10_UNORM_PACK32)
    } else if w == 12 {
        Some(Format::R16G16_UNORM)
    } else if w == 13 {
        Some(Format::R8G8_UNORM)
    } else if w == 14 {
        Some(Format::R16_UNORM)
    } else if w == 15 {
        Some(Format::R8_UNORM)
    } else if w == 16 {
        Some(Format::R16G16B16A16_SNORM)
    } else if w == 17 {
        Some(Format::R16G16_SNORM)
    } else if w == 18 {
        Some(Format::R8G8_SNORM)
    } else if w == 19 {
        Some(Format::R16_SNORM)
    } else if w == 20 {
        Some(Format::R8_SNORM)
    } else if w == 21 {
        Some(Format::R32G32B32A32_SINT)
    } else if w == 22 {
        Some(Format::R16G16B16A16_SINT)
    } else if w == 23 {
        Some(Format::R8G8B8A8_SINT)
    } else if w == 24 {
        Some(Format::R32_SINT)
    } else if w == 25 {
        Some(Format::R32G32_SINT)
    } else if w == 26 {
        Some(Format::R16G16_SINT)
    } else if w == 27 {
        Some(Format::R8G8_SINT)
    } else if w == 28 {
        Some(Format::R16_SINT)
    } else if w == 29 {
        Some(Format::R8_SINT)
    } else if w == 30 {
        Some(Format::R32G32B32A32_UINT)
    } else if w == 31 {
        Some(Format::R16G16B16A16_UINT)
    } else if w == 32 {
        Some(Format::R8G8B8A8_UINT)
    } else if w == 33 {
        Some(Format::R32_UINT)
    } else if w == 34 {
        Some(Format::A2B10G10R10_UINT_PACK32)
    } else if w == 35 {
        Some(Format::R32G32_UINT)
    } else if w == 36 {
        Some(Format::R16G16_UINT)
    } else if w == 37 {
        Some(Format::R8G8_UINT)
    } else if w == 38 {
        Some(Format::R16_UINT)
    } else if w == 39 {
        Some(Format::R8_UINT)
    } else if w == 40 {
        Some(Format::R64_UINT)
    } else if w == 41 {
        Some(Format::R64_SINT)
    } else {
        None
    }
}

/// The kind of resource a descriptor binding may hold.
#[derive(Clone, Copy, Debug, PartialEq, Eq, Structural)]
pub enum DescriptorType {
    Sampler,
    CombinedImageSampler,
    SampledImage,
    StorageImage,
    UniformTexelBuffer,
    StorageTexelBuffer,
    UniformBuffer,
    StorageBuffer,
    UniformBufferDynamic,
    StorageBufferDynamic,
    InputAttachment,
}

/// The view type an image view bound to a binding must have.
#[derive(Clone, Copy, Debug, PartialEq, Eq, Structural)]
pub enum ImageViewType {
    Dim1d,
    Dim2d,
    Dim3d,
    Cube,
    Dim1dArray,
    Dim2dArray,
    CubeArray,
}

} // verus!
