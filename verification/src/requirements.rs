//! The requirements a shader imposes on a descriptor-set binding and on the
//! resources bound to it, and the merge that reconciles the requirements
//! contributed by several shader stages into one consistent contract.

use vstd::prelude::*;

use crate::formats::DescriptorType;
use crate::formats::Format;
use crate::formats::ImageViewType;
use crate::formats::NumericType;
use crate::idmap::KeyMap;
use crate::stages::ShaderStages;

verus! {

/// One descriptor within a binding, identified across the whole pipeline
/// layout.
#[derive(Clone, Copy, Debug, PartialEq, Eq, Hash, Structural)]
pub struct DescriptorIdentifier {
    pub set: u32,
    pub binding: u32,
    pub index: u32,
}

/// The requirements imposed by a shader on resources bound to a descriptor.
#[derive(Debug)]
pub struct DescriptorRequirements {
    /// For buffers and images, which shader stages perform read operations.
    pub memory_read: ShaderStages,
    /// For buffers and images, which shader stages perform write operations.
    pub memory_write: ShaderStages,
    /// For sampler bindings, whether the shader performs depth comparison
    /// operations.
    pub sampler_compare: bool,
    /// For sampler bindings, whether the shader performs sampling operations
    /// that are not permitted with unnormalized coordinates.
    pub sampler_no_unnormalized_coordinates: bool,
    /// For sampler bindings, whether the shader performs sampling operations
    /// that are not permitted with a sampler format conversion.
    pub sampler_no_ycbcr_conversion: bool,
    /// For sampler bindings, the sampled-image descriptors that are used in
    /// combination with this sampler. No identifier appears twice.
    pub sampler_with_images: Vec<DescriptorIdentifier>,
    /// For storage-image bindings, whether the shader performs atomic
    /// operations.
    pub storage_image_atomic: bool,
}

/// The mathematical content of a `DescriptorRequirements` value.
pub struct DescriptorRequirementsView {
    pub memory_read: ShaderStages,
    pub memory_write: ShaderStages,
    pub sampler_compare: bool,
    pub sampler_no_unnormalized_coordinates: bool,
    pub sampler_no_ycbcr_conversion: bool,
    pub sampler_with_images: Seq<DescriptorIdentifier>,
    pub storage_image_atomic: bool,
}

impl View for DescriptorRequirements {
    type V = DescriptorRequirementsView;

    open spec fn view(&self) -> DescriptorRequirementsView {
        DescriptorRequirementsView {
            memory_read: self.memory_read,
            memory_write: self.memory_write,
            sampler_compare: self.sampler_compare,
            sampler_no_unnormalized_coordinates: self.sampler_no_unnormalized_coordinates,
            sampler_no_ycbcr_conversion: self.sampler_no_ycbcr_conversion,
            sampler_with_images: self.sampler_with_images@,
            storage_image_atomic: self.storage_image_atomic,
        }
    }
}

/// Adds an identifier to a sequence unless it is already there.
pub open spec fn spec_ids_insert(
    s: Seq<DescriptorIdentifier>,
    x: DescriptorIdentifier,
) -> Seq<DescriptorIdentifier> {
    if s.contains(x) {
        s
    } else {
        s.push(x)
    }
}

/// The union of two identifier sequences: the elements of `b` not yet in `a`
/// are appended in order.
pub open spec fn spec_ids_union(
    a: Seq<DescriptorIdentifier>,
    b: Seq<DescriptorIdentifier>,
) -> Seq<DescriptorIdentifier>
    decreases b.len(),
{
    if b.len() == 0 {
        a
    } else {
        spec_ids_union(spec_ids_insert(a, b[0]), b.drop_first())
    }
}

/// What merging descriptor requirements `b` into `a` produces: stage bitsets
/// and flags are combined by union, and the sampler/image pairings are the
/// union of the two sets. No combination conflicts.
pub open spec fn spec_merge_descriptor_requirements(
    a: DescriptorRequirementsView,
    b: DescriptorRequirementsView,
) -> DescriptorRequirementsView {
    DescriptorRequirementsView {
        memory_read: ShaderStages { bits: a.memory_read.bits | b.memory_read.bits },
        memory_write: ShaderStages { bits: a.memory_write.bits | b.memory_write.bits },
        sampler_compare: a.sampler_compare || b.sampler_compare,
        sampler_no_unnormalized_coordinates: a.sampler_no_unnormalized_coordinates
            || b.sampler_no_unnormalized_coordinates,
        sampler_no_ycbcr_conversion: a.sampler_no_ycbcr_conversion
            || b.sampler_no_ycbcr_conversion,
        sampler_with_images: spec_ids_union(a.sampler_with_images, b.sampler_with_images),
        storage_image_atomic: a.storage_image_atomic || b.storage_image_atomic,
    }
}

/// Whether a vector of identifiers holds `x`.
fn ids_contain(v: &Vec<DescriptorIdentifier>, x: DescriptorIdentifier) -> (r: bool)
    ensures
        r == v@.contains(x),
{
    let n = v.len();
    let mut i: usize = 0;
    while i < n
        invariant
            n == v@.len(),
            i <= n,
            forall|j: int| 0 <= j < i ==> v@[j] != x,
        decreases n - i,
    {
        if v[i] == x {
            return true;
        }
        i = i + 1;
    }
    false
}

impl DescriptorRequirements {
    /// Requirements that require nothing.
    pub fn none() -> (r: DescriptorRequirements)
        ensures
            r@ == spec_descriptor_requirements_none(),
    {
        DescriptorRequirements {
            memory_read: ShaderStages::empty(),
            memory_write: ShaderStages::empty(),
            sampler_compare: false,
            sampler_no_unnormalized_coordinates: false,
            sampler_no_ycbcr_conversion: false,
            sampler_with_images: Vec::new(),
            storage_image_atomic: false,
        }
    }

    /// An independent copy.
    pub fn duplicate(&self) -> (r: DescriptorRequirements)
        ensures
            r@ == self@,
    {
        let mut ids: Vec<DescriptorIdentifier> = Vec::new();
        let n = self.sampler_with_images.len();
        let mut i: usize = 0;
        while i < n
            invariant
                n == self.sampler_with_images@.len(),
                i <= n,
                ids@ == self.sampler_with_images@.subrange(0, i as int),
            decreases n - i,
        {
            ids.push(self.sampler_with_images[i]);
            proof {
                assert(ids@ =~= self.sampler_with_images@.subrange(0, i as int + 1));
            }
            i = i + 1;
        }
        proof {
            assert(ids@ =~= self.sampler_with_images@);
        }
        DescriptorRequirements {
            memory_read: self.memory_read,
            memory_write: self.memory_write,
            sampler_compare: self.sampler_compare,
            sampler_no_unnormalized_coordinates: self.sampler_no_unnormalized_coordinates,
            sampler_no_ycbcr_conversion: self.sampler_no_ycbcr_conversion,
            sampler_with_images: ids,
            storage_image_atomic: self.storage_image_atomic,
        }
    }

    /// Merges `other` into `self`, so that `self` satisfies the requirements
    /// of both. Stage sets and flags are combined by union; no merge of
    /// descriptor requirements can conflict.
    pub fn merge(&mut self, other: &Self)
        ensures
            final(self)@ == spec_merge_descriptor_requirements(old(self)@, other@),
    {
        self.memory_read = self.memory_read.union(other.memory_read);
        self.memory_write = self.memory_write.union(other.memory_write);
        self.sampler_compare = self.sampler_compare || other.sampler_compare;
        self.sampler_no_unnormalized_coordinates = self.sampler_no_unnormalized_coordinates
            || other.sampler_no_unnormalized_coordinates;
        self.sampler_no_ycbcr_conversion = self.sampler_no_ycbcr_conversion
            || other.sampler_no_ycbcr_conversion;
        self.storage_image_atomic = self.storage_image_atomic || other.storage_image_atomic;
        let ghost a0 = self.sampler_with_images@;
        let ghost b = other.sampler_with_images@;
        let n = other.sampler_with_images.len();
        let mut j: usize = 0;
        proof {
            assert(b.skip(0) =~= b);
        }
        while j < n
            invariant
                n == b.len(),
                j <= n,
                other.sampler_with_images@ == b,
                self.memory_read == (ShaderStages {
                    bits: old(self).memory_read.bits | other.memory_read.bits,
                }),
                self.memory_write == (ShaderStages {
                    bits: old(self).memory_write.bits | other.memory_write.bits,
                }),
                self.sampler_compare == (old(self).sampler_compare || other.sampler_compare),
                self.sampler_no_unnormalized_coordinates == (
                old(self).sampler_no_unnormalized_coordinates
                    || other.sampler_no_unnormalized_coordinates),
                self.sampler_no_ycbcr_conversion == (old(self).sampler_no_ycbcr_conversion
                    || other.sampler_no_ycbcr_conversion),
                self.storage_image_atomic == (old(self).storage_image_atomic
                    || other.storage_image_atomic),
                spec_ids_union(a0, b) == spec_ids_union(self.sampler_with_images@, b.skip(j as int)),
            decreases n - j,
        {
            proof {
                assert(b.skip(j as int)[0] == b[j as int]);
                assert(b.skip(j as int).drop_first() =~= b.skip(j as int + 1));
            }
            let x = other.sampler_with_images[j];
            if !ids_contain(&self.sampler_with_images, x) {
                self.sampler_with_images.push(x);
            }
            j = j + 1;
        }
        proof {
            assert(b.skip(n as int) =~= Seq::<DescriptorIdentifier>::empty());
        }
    }
}

/// The view of requirements that require nothing.
pub open spec fn spec_descriptor_requirements_none() -> DescriptorRequirementsView {
    DescriptorRequirementsView {
        memory_read: ShaderStages { bits: 0 },
        memory_write: ShaderStages { bits: 0 },
        sampler_compare: false,
        sampler_no_unnormalized_coordinates: false,
        sampler_no_ycbcr_conversion: false,
        sampler_with_images: Seq::empty(),
        storage_image_atomic: false,
    }
}

/// The key under which per-descriptor requirements are stored: index `None`
/// (for descriptors whose index is only known at runtime) is key 0, and a
/// statically known index `i` is key `i + 1`.
pub open spec fn spec_index_key(index: Option<u32>) -> u64 {
    match index {
        None => 0,
        Some(i) => (i + 1) as u64,
    }
}

/// The key under which per-descriptor requirements of index `index` are
/// stored.
pub fn index_key(index: Option<u32>) -> (r: u64)
    ensures
        r == spec_index_key(index),
{
    match index {
        None => 0,
        Some(i) => (i as u64) + 1u64,
    }
}

/// A contiguous byte range of the push-constant block, tagged with the
/// stages that access it.
#[derive(Clone, Copy, Debug, PartialEq, Eq, Structural)]
pub struct PushConstantRange {
    /// The stages that access the range.
    pub stages: ShaderStages,
    /// The start of the range, in bytes.
    pub offset: u32,
    /// The length of the range, in bytes.
    pub size: u32,
}

/// Why two descriptor-binding requirements cannot be reconciled.
#[derive(Clone, Copy, Debug, PartialEq, Eq, Structural)]
pub enum MergeError {
    /// The allowed descriptor types of the two bindings do not overlap.
    DescriptorTypesNotOverlapping,
    /// The two bindings require different image formats.
    ImageFormatMismatch,
    /// The two bindings require different image scalar types.
    ImageScalarTypeMismatch,
    /// The two bindings require different image view types.
    ImageViewTypeMismatch,
    /// The multisampling requirements of the two bindings differ.
    ImageMultisampledMismatch,
}

/// The requirements imposed by a shader on a binding within a descriptor-set
/// layout, and on any resource that is bound to that binding.
#[derive(Debug)]
pub struct DescriptorBindingRequirements {
    /// The descriptor types that are allowed.
    pub descriptor_types: Vec<DescriptorType>,
    /// The number of descriptors (array elements) that the shader requires;
    /// `None` means a runtime-sized array.
    pub descriptor_count: Option<u32>,
    /// The image format required for image views bound to this binding;
    /// `None` allows any format.
    pub image_format: Option<Format>,
    /// Whether image views bound to this binding must be multisampled.
    pub image_multisampled: bool,
    /// The base scalar type required for the format of image views bound to
    /// this binding; `None` for non-image bindings.
    pub image_scalar_type: Option<NumericType>,
    /// The view type required for image views bound to this binding; `None`
    /// for non-image bindings.
    pub image_view_type: Option<ImageViewType>,
    /// The shader stages that the binding must be declared for.
    pub stages: ShaderStages,
    /// The requirements for individual descriptors within the binding, keyed
    /// by `spec_index_key` of the descriptor index.
    pub descriptors: KeyMap<DescriptorRequirements>,
}

/// The mathematical content of a `DescriptorBindingRequirements` value.
#[verifier::ext_equal]
pub struct DescriptorBindingRequirementsView {
    pub descriptor_types: Seq<DescriptorType>,
    pub descriptor_count: Option<u32>,
    pub image_format: Option<Format>,
    pub image_multisampled: bool,
    pub image_scalar_type: Option<NumericType>,
    pub image_view_type: Option<ImageViewType>,
    pub stages: ShaderStages,
    pub descriptors: Map<u64, DescriptorRequirementsView>,
}

impl View for DescriptorBindingRequirements {
    type V = DescriptorBindingRequirementsView;

    open spec fn view(&self) -> DescriptorBindingRequirementsView {
        DescriptorBindingRequirementsView {
            descriptor_types: self.descriptor_types@,
            descriptor_count: self.descriptor_count,
            image_format: self.image_format,
            image_multisampled: self.image_multisampled,
            image_scalar_type: self.image_scalar_type,
            image_view_type: self.image_view_type,
            stages: self.stages,
            descriptors: spec_descriptors_view(self.descriptors),
        }
    }
}

/// The per-descriptor map of a binding, with each value abstracted to its
/// view.
pub open spec fn spec_descriptors_view(km: KeyMap<DescriptorRequirements>) -> Map<
    u64,
    DescriptorRequirementsView,
> {
    km@.map_values(|v: DescriptorRequirements| v@)
}

/// Whether two sequences of descriptor types share an element.
pub open spec fn spec_types_overlap(a: Seq<DescriptorType>, b: Seq<DescriptorType>) -> bool {
    exists|t: DescriptorType| a.contains(t) && b.contains(t)
}

/// The conflict that prevents merging binding requirements `b` into `a`, if
/// any: disjoint allowed-type sets, a format, scalar-type or view-type fixed
/// differently on both sides, or differing multisampling, in that order of
/// priority.
pub open spec fn spec_merge_conflict(
    a: DescriptorBindingRequirementsView,
    b: DescriptorBindingRequirementsView,
) -> Option<MergeError> {
    if !spec_types_overlap(a.descriptor_types, b.descriptor_types) {
        Some(MergeError::DescriptorTypesNotOverlapping)
    } else if a.image_format is Some && b.image_format is Some && a.image_format
        != b.image_format {
        Some(MergeError::ImageFormatMismatch)
    } else if a.image_scalar_type is Some && b.image_scalar_type is Some && a.image_scalar_type
        != b.image_scalar_type {
        Some(MergeError::ImageScalarTypeMismatch)
    } else if a.image_view_type is Some && b.image_view_type is Some && a.image_view_type
        != b.image_view_type {
        Some(MergeError::ImageViewTypeMismatch)
    } else if a.image_multisampled != b.image_multisampled {
        Some(MergeError::ImageMultisampledMismatch)
    } else {
        None
    }
}

/// The stricter of two descriptor counts: a concrete bound from either side
/// is preserved, and two concrete bounds combine as their maximum.
pub open spec fn spec_max_count(a: Option<u32>, b: Option<u32>) -> Option<u32> {
    match (a, b) {
        (None, None) => None,
        (Some(x), None) => Some(x),
        (None, Some(y)) => Some(y),
        (Some(x), Some(y)) => if x >= y {
            Some(x)
        } else {
            Some(y)
        },
    }
}

/// Whichever side fixes a value, when at most one does (both sides agree
/// whenever both fix one, or a conflict was reported first).
pub open spec fn spec_opt_or<T>(a: Option<T>, b: Option<T>) -> Option<T> {
    if a is Some {
        a
    } else {
        b
    }
}

/// The pointwise merge of two per-descriptor maps: requirements present on
/// both sides are merged, the rest are carried over.
pub open spec fn spec_merged_descriptors(
    a: Map<u64, DescriptorRequirementsView>,
    b: Map<u64, DescriptorRequirementsView>,
) -> Map<u64, DescriptorRequirementsView> {
    Map::new(
        |q: u64| a.contains_key(q) || b.contains_key(q),
        |q: u64|
            if a.contains_key(q) && b.contains_key(q) {
                spec_merge_descriptor_requirements(a[q], b[q])
            } else if b.contains_key(q) {
                b[q]
            } else {
                a[q]
            },
    )
}

/// What merging binding requirements `b` into `a` produces when they do not
/// conflict: the allowed types are intersected (keeping `a`'s order), the
/// descriptor counts combine to the stricter bound, image constraints come
/// from whichever side fixes them, the stage sets unite, and the
/// per-descriptor maps merge pointwise.
pub open spec fn spec_merged_binding(
    a: DescriptorBindingRequirementsView,
    b: DescriptorBindingRequirementsView,
) -> DescriptorBindingRequirementsView {
    DescriptorBindingRequirementsView {
        descriptor_types: a.descriptor_types.filter(|t: DescriptorType| b.descriptor_types.contains(t)),
        descriptor_count: spec_max_count(a.descriptor_count, b.descriptor_count),
        image_format: spec_opt_or(a.image_format, b.image_format),
        image_multisampled: a.image_multisampled,
        image_scalar_type: spec_opt_or(a.image_scalar_type, b.image_scalar_type),
        image_view_type: spec_opt_or(a.image_view_type, b.image_view_type),
        stages: ShaderStages { bits: a.stages.bits | b.stages.bits },
        descriptors: spec_merged_descriptors(a.descriptors, b.descriptors),
    }
}

/// Whether a vector of descriptor types holds `t`.
fn types_contain(v: &Vec<DescriptorType>, t: DescriptorType) -> (r: bool)
    ensures
        r == v@.contains(t),
{
    let n = v.len();
    let mut i: usize = 0;
    while i < n
        invariant
            n == v@.len(),
            i <= n,
            forall|j: int| 0 <= j < i ==> v@[j] != t,
        decreases n - i,
    {
        if v[i] == t {
            return true;
        }
        i = i + 1;
    }
    false
}

/// Whether two vectors of descriptor types share an element.
fn types_overlap(a: &Vec<DescriptorType>, b: &Vec<DescriptorType>) -> (r: bool)
    ensures
        r == spec_types_overlap(a@, b@),
{
    let n = a.len();
    let mut i: usize = 0;
    while i < n
        invariant
            n == a@.len(),
            i <= n,
            forall|j: int| 0 <= j < i ==> !b@.contains(#[trigger] a@[j]),
        decreases n - i,
    {
        if types_contain(b, a[i]) {
            return true;
        }
        i = i + 1;
    }
    proof {
        if spec_types_overlap(a@, b@) {
            let t = choose|t: DescriptorType| a@.contains(t) && b@.contains(t);
            let j = choose|j: int| 0 <= j < a@.len() && a@[j] == t;
            assert(!b@.contains(a@[j]));
        }
    }
    false
}

/// Merging `b`'s entries into map `m`, in entry order.
pub open spec fn spec_fold_merge(
    m: Map<u64, DescriptorRequirementsView>,
    entries: Seq<(u64, DescriptorRequirements)>,
) -> Map<u64, DescriptorRequirementsView>
    decreases entries.len(),
{
    if entries.len() == 0 {
        m
    } else {
        let k = entries[0].0;
        let vv = entries[0].1@;
        let m1 = if m.contains_key(k) {
            m.insert(k, spec_merge_descriptor_requirements(m[k], vv))
        } else {
            m.insert(k, vv)
        };
        spec_fold_merge(m1, entries.drop_first())
    }
}

/// Entries that never name `q` leave `q` alone.
proof fn lemma_fold_merge_untouched(
    m: Map<u64, DescriptorRequirementsView>,
    entries: Seq<(u64, DescriptorRequirements)>,
    q: u64,
)
    requires
        forall|i: int| 0 <= i < entries.len() ==> (#[trigger] entries[i]).0 != q,
    ensures
        spec_fold_merge(m, entries).contains_key(q) == m.contains_key(q),
        m.contains_key(q) ==> spec_fold_merge(m, entries)[q] == m[q],
    decreases entries.len(),
{
    if entries.len() > 0 {
        let k = entries[0].0;
        let vv = entries[0].1@;
        let m1 = if m.contains_key(k) {
            m.insert(k, spec_merge_descriptor_requirements(m[k], vv))
        } else {
            m.insert(k, vv)
        };
        assert forall|i: int| 0 <= i < entries.drop_first().len() implies (
        #[trigger] entries.drop_first()[i]).0 != q by {
            assert(entries.drop_first()[i] == entries[i + 1]);
        }
        lemma_fold_merge_untouched(m1, entries.drop_first(), q);
    }
}

/// Folding distinct-keyed entries into a map is the pointwise merge with the
/// association the entries spell out.
proof fn lemma_fold_merge_pointwise(
    m: Map<u64, DescriptorRequirementsView>,
    entries: Seq<(u64, DescriptorRequirements)>,
)
    requires
        crate::idmap::distinct_keys(entries),
    ensures
        spec_fold_merge(m, entries) == Map::new(
            |q: u64| m.contains_key(q) || crate::idmap::assoc_get(entries, q) is Some,
            |q: u64|
                {
                    match crate::idmap::assoc_get(entries, q) {
                        Some(v) => if m.contains_key(q) {
                            spec_merge_descriptor_requirements(m[q], v@)
                        } else {
                            v@
                        },
                        None => m[q],
                    }
                },
        ),
    decreases entries.len(),
{
    let target = Map::new(
        |q: u64| m.contains_key(q) || crate::idmap::assoc_get(entries, q) is Some,
        |q: u64|
            {
                match crate::idmap::assoc_get(entries, q) {
                    Some(v) => if m.contains_key(q) {
                        spec_merge_descriptor_requirements(m[q], v@)
                    } else {
                        v@
                    },
                    None => m[q],
                }
            },
    );
    if entries.len() == 0 {
        assert(spec_fold_merge(m, entries) =~= target);
    } else {
        let k = entries[0].0;
        let vv = entries[0].1@;
        let m1 = if m.contains_key(k) {
            m.insert(k, spec_merge_descriptor_requirements(m[k], vv))
        } else {
            m.insert(k, vv)
        };
        let rest = entries.drop_first();
        assert forall|a: int, b: int| 0 <= a < b < rest.len() implies (#[trigger] rest[a]).0
            != (#[trigger] rest[b]).0 by {
            assert(rest[a] == entries[a + 1]);
            assert(rest[b] == entries[b + 1]);
        }
        lemma_fold_merge_pointwise(m1, rest);
        assert forall|i: int| 0 <= i < rest.len() implies (#[trigger] rest[i]).0 != k by {
            assert(rest[i] == entries[i + 1]);
        }
        crate::idmap::lemma_assoc_get_none(rest, k);
        assert(spec_fold_merge(m, entries) =~= target) by {
            assert forall|q: u64| #[trigger] target.contains_key(q) implies spec_fold_merge(
                m,
                entries,
            ).contains_key(q) && spec_fold_merge(m, entries)[q] == target[q] by {
                if q == k {
                    assert(crate::idmap::assoc_get(entries, q) == Some(entries[0].1));
                } else {
                    assert(crate::idmap::assoc_get(entries, q) == crate::idmap::assoc_get(
                        rest,
                        q,
                    ));
                }
            }
            assert forall|q: u64| #[trigger] spec_fold_merge(m, entries).contains_key(
                q,
            ) implies target.contains_key(q) by {
                if q != k {
                    assert(crate::idmap::assoc_get(entries, q) == crate::idmap::assoc_get(
                        rest,
                        q,
                    ));
                }
            }
        }
    }
}

impl DescriptorBindingRequirements {
    /// The per-descriptor map is well formed.
    pub open spec fn wf(self) -> bool {
        self.descriptors.wf()
    }

    /// Requirements that allow the given types and constrain nothing else.
    pub fn unconstrained(descriptor_types: Vec<DescriptorType>) -> (r: DescriptorBindingRequirements)
        ensures
            r@.descriptor_types == descriptor_types@,
            r@.descriptor_count == None::<u32>,
            r@.image_format == None::<Format>,
            r@.image_multisampled == false,
            r@.image_scalar_type == None::<NumericType>,
            r@.image_view_type == None::<ImageViewType>,
            r@.stages.bits == 0,
            r@.descriptors =~= Map::<u64, DescriptorRequirementsView>::empty(),
            r.wf(),
    {
        let r = DescriptorBindingRequirements {
            descriptor_types,
            descriptor_count: None,
            image_format: None,
            image_multisampled: false,
            image_scalar_type: None,
            image_view_type: None,
            stages: ShaderStages::empty(),
            descriptors: KeyMap::new(),
        };
        proof {
            assert(r@.descriptors =~= Map::<u64, DescriptorRequirementsView>::empty());
        }
        r
    }

    /// Merges `other` into `self`, so that `self` satisfies the requirements
    /// of both. On conflict an error naming the conflicting field is
    /// returned and `self` is left unchanged; no partial merge is applied.
    pub fn merge(&mut self, other: &Self) -> (r: Result<(), MergeError>)
        requires
            old(self).wf(),
            other.wf(),
        ensures
            final(self).wf(),
            match r {
                Ok(()) => spec_merge_conflict(old(self)@, other@) is None && final(self)@
                    == spec_merged_binding(old(self)@, other@),
                Err(e) => spec_merge_conflict(old(self)@, other@) == Some(e) && final(self)@
                    == old(self)@,
            },
    {
        if !types_overlap(&self.descriptor_types, &other.descriptor_types) {
            return Err(MergeError::DescriptorTypesNotOverlapping);
        }
        match (self.image_format, other.image_format) {
            (Some(first), Some(second)) => {
                if first != second {
                    return Err(MergeError::ImageFormatMismatch);
                }
            },
            _ => {},
        }
        match (self.image_scalar_type, other.image_scalar_type) {
            (Some(first), Some(second)) => {
                if first != second {
                    return Err(MergeError::ImageScalarTypeMismatch);
                }
            },
            _ => {},
        }
        match (self.image_view_type, other.image_view_type) {
            (Some(first), Some(second)) => {
                if first != second {
                    return Err(MergeError::ImageViewTypeMismatch);
                }
            },
            _ => {},
        }
        if self.image_multisampled != other.image_multisampled {
            return Err(MergeError::ImageMultisampledMismatch);
        }
        let ghost a0 = self@;

        // Intersect the allowed descriptor types, keeping this side's order.
        let n = self.descriptor_types.len();
        let mut kept: Vec<DescriptorType> = Vec::new();
        let mut i: usize = 0;
        proof {
            assert(a0.descriptor_types.subrange(0, 0) =~= Seq::<DescriptorType>::empty());
            assert(kept@ =~= a0.descriptor_types.subrange(0, 0).filter(
                |t: DescriptorType| other.descriptor_types@.contains(t),
            )) by {
                reveal(Seq::filter);
            }
        }
        while i < n
            invariant
                n == self.descriptor_types@.len(),
                i <= n,
                self.descriptor_types@ == a0.descriptor_types,
                kept@ == a0.descriptor_types.subrange(0, i as int).filter(
                    |t: DescriptorType| other.descriptor_types@.contains(t),
                ),
            decreases n - i,
        {
            let t = self.descriptor_types[i];
            let ghost pre = a0.descriptor_types.subrange(0, i as int);
            let ghost post = a0.descriptor_types.subrange(0, i as int + 1);
            if types_contain(&other.descriptor_types, t) {
                kept.push(t);
            }
            proof {
                assert(post.drop_last() =~= pre);
                assert(post.last() == a0.descriptor_types[i as int]);
                reveal(Seq::filter);
            }
            i = i + 1;
        }
        proof {
            assert(a0.descriptor_types.subrange(0, n as int) =~= a0.descriptor_types);
        }
        self.descriptor_types = kept;

        // Combine the scalar constraints.
        self.descriptor_count = match (self.descriptor_count, other.descriptor_count) {
            (Some(x), Some(y)) => if x >= y {
                Some(x)
            } else {
                Some(y)
            },
            (Some(x), None) => Some(x),
            (None, y) => y,
        };
        if self.image_format.is_none() {
            self.image_format = other.image_format;
        }
        if self.image_scalar_type.is_none() {
            self.image_scalar_type = other.image_scalar_type;
        }
        if self.image_view_type.is_none() {
            self.image_view_type = other.image_view_type;
        }
        self.stages = self.stages.union(other.stages);

        // Merge the per-descriptor requirements, key by key.
        let ghost m0 = spec_descriptors_view(self.descriptors);
        let ghost bents = other.descriptors.entries();
        let bn = other.descriptors.len();
        let mut j: usize = 0;
        proof {
            assert(bents.skip(0) =~= bents);
        }
        while j < bn
            invariant
                bn == bents.len(),
                j <= bn,
                other.descriptors.entries() == bents,
                other.descriptors.wf(),
                self.descriptors.wf(),
                spec_fold_merge(m0, bents) == spec_fold_merge(
                    spec_descriptors_view(self.descriptors),
                    bents.skip(j as int),
                ),
                self.descriptor_types@ == a0.descriptor_types.filter(
                    |t: DescriptorType| other.descriptor_types@.contains(t),
                ),
                self.descriptor_count == spec_max_count(
                    a0.descriptor_count,
                    other.descriptor_count,
                ),
                self.image_format == spec_opt_or(a0.image_format, other.image_format),
                self.image_multisampled == a0.image_multisampled,
                self.image_scalar_type == spec_opt_or(
                    a0.image_scalar_type,
                    other.image_scalar_type,
                ),
                self.image_view_type == spec_opt_or(a0.image_view_type, other.image_view_type),
                self.stages == (ShaderStages { bits: a0.stages.bits | other.stages.bits }),
            decreases bn - j,
        {
            proof {
                assert(bents.skip(j as int)[0] == bents[j as int]);
                assert(bents.skip(j as int).drop_first() =~= bents.skip(j as int + 1));
            }
            let e = other.descriptors.entry_at(j);
            let k = e.0;
            let ghost pre_map = spec_descriptors_view(self.descriptors);
            let present = self.descriptors.contains_key(k);
            if present {
                let mut merged = match self.descriptors.get(k) {
                    Some(cur) => cur.duplicate(),
                    None => DescriptorRequirements::none(),  // unreachable: the key is present
                };
                merged.merge(&e.1);
                self.descriptors.insert(k, merged);
                proof {
                    assert(spec_descriptors_view(self.descriptors) =~= pre_map.insert(
                        k,
                        spec_merge_descriptor_requirements(pre_map[k], e.1@),
                    ));
                }
            } else {
                let copy = e.1.duplicate();
                self.descriptors.insert(k, copy);
                proof {
                    assert(spec_descriptors_view(self.descriptors) =~= pre_map.insert(k, e.1@));
                }
            }
            j = j + 1;
        }
        proof {
            assert(bents.skip(bn as int) =~= Seq::<(u64, DescriptorRequirements)>::empty());
            other.descriptors.lemma_entries_agree_with_view();
            lemma_fold_merge_pointwise(m0, bents);
            assert(spec_descriptors_view(self.descriptors) =~= spec_merged_descriptors(
                m0,
                spec_descriptors_view(other.descriptors),
            )) by {
                assert forall|q: u64|
                    crate::idmap::assoc_get(bents, q) is Some <==> #[trigger] spec_descriptors_view(
                        other.descriptors,
                    ).contains_key(q) by {}
                assert forall|q: u64|
                    #[trigger] spec_descriptors_view(other.descriptors).contains_key(
                        q,
                    ) implies crate::idmap::assoc_get(bents, q) matches Some(v) && v@
                    == spec_descriptors_view(other.descriptors)[q] by {}
            }
            assert(final(self)@ =~= spec_merged_binding(old(self)@, other@));
        }
        Ok(())
    }
}

/// Membership in a sequence survives dropping the first element, except for
/// the first element itself.
proof fn lemma_contains_drop_first<A>(y: Seq<A>, e: A)
    requires
        y.len() > 0,
    ensures
        y.contains(e) <==> (y[0] == e || y.drop_first().contains(e)),
{
    if y.contains(e) {
        let i = choose|i: int| 0 <= i < y.len() && y[i] == e;
        if i > 0 {
            assert(y.drop_first()[i - 1] == y[i]);
        }
    }
    if y.drop_first().contains(e) {
        let i = choose|i: int| 0 <= i < y.drop_first().len() && y.drop_first()[i] == e;
        assert(y[i + 1] == e);
    }
}

/// The union of two identifier sequences holds exactly the identifiers of
/// either side.
proof fn lemma_ids_union_contains(a: Seq<DescriptorIdentifier>, b: Seq<DescriptorIdentifier>)
    ensures
        forall|e: DescriptorIdentifier|
            #[trigger] spec_ids_union(a, b).contains(e) <==> (a.contains(e) || b.contains(e)),
    decreases b.len(),
{
    if b.len() > 0 {
        let a1 = spec_ids_insert(a, b[0]);
        lemma_ids_union_contains(a1, b.drop_first());
        assert forall|e: DescriptorIdentifier| #[trigger]
            spec_ids_union(a, b).contains(e) <==> (a.contains(e) || b.contains(e)) by {
            assert(a1.contains(e) <==> (a.contains(e) || b[0] == e)) by {
                if !a.contains(b[0]) {
                    if a.contains(e) {
                        let i = choose|i: int| 0 <= i < a.len() && a[i] == e;
                        assert(a.push(b[0])[i] == e);
                    }
                    if a.push(b[0]).contains(e) {
                        let i = choose|i: int|
                            0 <= i < a.push(b[0]).len() && a.push(b[0])[i] == e;
                        if i < a.len() {
                            assert(a[i] == e);
                        } else {
                            assert(e == b[0]);
                        }
                    }
                    if b[0] == e {
                        assert(a.push(b[0])[a.len() as int] == e);
                    }
                }
            }
            lemma_contains_drop_first(b, e);
            assert(spec_ids_union(a, b) == spec_ids_union(a1, b.drop_first()));
        }
    }
}

/// Intersecting an allowed-type list with another keeps exactly the types
/// both lists hold.
proof fn lemma_types_intersection(a: Seq<DescriptorType>, b: Seq<DescriptorType>)
    ensures
        a.filter(|x: DescriptorType| b.contains(x)).to_set() == a.to_set().intersect(b.to_set()),
{
    let pred = |x: DescriptorType| b.contains(x);
    assert forall|t: DescriptorType|
        a.filter(pred).contains(t) <==> (#[trigger] a.contains(t) && b.contains(t)) by {
        if a.filter(pred).contains(t) {
            a.lemma_filter_contains_rev(pred, t);
            let j = choose|j: int| 0 <= j < a.filter(pred).len() && a.filter(pred)[j] == t;
            Seq::lemma_filter_pred(a, pred, j);
        }
        if a.contains(t) && b.contains(t) {
            let i = choose|i: int| 0 <= i < a.len() && a[i] == t;
            Seq::lemma_filter_contains(a, pred, i);
        }
    }
    assert(a.filter(pred).to_set() =~= a.to_set().intersect(b.to_set())) by {
        assert forall|t: DescriptorType|
            a.filter(pred).to_set().contains(t) <==> a.to_set().intersect(b.to_set()).contains(
                t,
            ) by {
            assert(a.filter(pred).contains(t) <==> (a.contains(t) && b.contains(t)));
        }
    }
}

/// Two per-descriptor requirement views with the same content, up to the
/// order in which the sampler/image pairings were recorded.
pub open spec fn spec_dr_equivalent(
    x: DescriptorRequirementsView,
    y: DescriptorRequirementsView,
) -> bool {
    &&& x.memory_read == y.memory_read
    &&& x.memory_write == y.memory_write
    &&& x.sampler_compare == y.sampler_compare
    &&& x.sampler_no_unnormalized_coordinates == y.sampler_no_unnormalized_coordinates
    &&& x.sampler_no_ycbcr_conversion == y.sampler_no_ycbcr_conversion
    &&& x.sampler_with_images.to_set() == y.sampler_with_images.to_set()
    &&& x.storage_image_atomic == y.storage_image_atomic
}

/// Two binding requirement views with the same content, up to the order of
/// the allowed-type list and of the sampler/image pairing sets.
pub open spec fn spec_binding_equivalent(
    x: DescriptorBindingRequirementsView,
    y: DescriptorBindingRequirementsView,
) -> bool {
    &&& x.descriptor_types.to_set() == y.descriptor_types.to_set()
    &&& x.descriptor_count == y.descriptor_count
    &&& x.image_format == y.image_format
    &&& x.image_multisampled == y.image_multisampled
    &&& x.image_scalar_type == y.image_scalar_type
    &&& x.image_view_type == y.image_view_type
    &&& x.stages == y.stages
    &&& x.descriptors.dom() == y.descriptors.dom()
    &&& forall|k: u64|
        x.descriptors.contains_key(k) ==> spec_dr_equivalent(
            #[trigger] x.descriptors[k],
            y.descriptors[k],
        )
}

/// Merging per-descriptor requirements is commutative up to pairing order.
proof fn lemma_dr_merge_commutative(x: DescriptorRequirementsView, y: DescriptorRequirementsView)
    ensures
        spec_dr_equivalent(
            spec_merge_descriptor_requirements(x, y),
            spec_merge_descriptor_requirements(y, x),
        ),
{
    let xr = x.memory_read.bits;
    let yr = y.memory_read.bits;
    let xw = x.memory_write.bits;
    let yw = y.memory_write.bits;
    assert(xr | yr == yr | xr) by (bit_vector);
    assert(xw | yw == yw | xw) by (bit_vector);
    lemma_ids_union_contains(x.sampler_with_images, y.sampler_with_images);
    lemma_ids_union_contains(y.sampler_with_images, x.sampler_with_images);
    assert(spec_ids_union(x.sampler_with_images, y.sampler_with_images).to_set()
        =~= spec_ids_union(y.sampler_with_images, x.sampler_with_images).to_set());
}

/// Merging per-descriptor requirements is associative up to pairing order.
proof fn lemma_dr_merge_associative(
    x: DescriptorRequirementsView,
    y: DescriptorRequirementsView,
    z: DescriptorRequirementsView,
)
    ensures
        spec_dr_equivalent(
            spec_merge_descriptor_requirements(spec_merge_descriptor_requirements(x, y), z),
            spec_merge_descriptor_requirements(x, spec_merge_descriptor_requirements(y, z)),
        ),
{
    let xr = x.memory_read.bits;
    let yr = y.memory_read.bits;
    let zr = z.memory_read.bits;
    let xw = x.memory_write.bits;
    let yw = y.memory_write.bits;
    let zw = z.memory_write.bits;
    assert((xr | yr) | zr == xr | (yr | zr)) by (bit_vector);
    assert((xw | yw) | zw == xw | (yw | zw)) by (bit_vector);
    lemma_ids_union_contains(x.sampler_with_images, y.sampler_with_images);
    lemma_ids_union_contains(y.sampler_with_images, z.sampler_with_images);
    lemma_ids_union_contains(
        spec_ids_union(x.sampler_with_images, y.sampler_with_images),
        z.sampler_with_images,
    );
    lemma_ids_union_contains(
        x.sampler_with_images,
        spec_ids_union(y.sampler_with_images, z.sampler_with_images),
    );
    assert(spec_ids_union(
        spec_ids_union(x.sampler_with_images, y.sampler_with_images),
        z.sampler_with_images,
    ).to_set() =~= spec_ids_union(
        x.sampler_with_images,
        spec_ids_union(y.sampler_with_images, z.sampler_with_images),
    ).to_set());
}

/// Merging requirement sets is commutative: when `a` and `b` do not
/// conflict, neither do `b` and `a`, and the two merge orders produce the
/// same requirements, up to the order of the allowed-type list and of the
/// sampler/image pairing sets (the intersection, union and maximum that
/// combine the fields do not depend on the order of their operands).
pub proof fn lemma_merge_commutative(
    a: DescriptorBindingRequirementsView,
    b: DescriptorBindingRequirementsView,
)
    requires
        spec_merge_conflict(a, b) is None,
    ensures
        spec_merge_conflict(b, a) is None,
        spec_binding_equivalent(spec_merged_binding(a, b), spec_merged_binding(b, a)),
{
    assert(spec_types_overlap(b.descriptor_types, a.descriptor_types)) by {
        let t = choose|t: DescriptorType|
            a.descriptor_types.contains(t) && b.descriptor_types.contains(t);
        assert(b.descriptor_types.contains(t) && a.descriptor_types.contains(t));
    }
    let l = spec_merged_binding(a, b);
    let r = spec_merged_binding(b, a);
    lemma_types_intersection(a.descriptor_types, b.descriptor_types);
    lemma_types_intersection(b.descriptor_types, a.descriptor_types);
    assert(a.descriptor_types.to_set().intersect(b.descriptor_types.to_set())
        =~= b.descriptor_types.to_set().intersect(a.descriptor_types.to_set()));
    let sa = a.stages.bits;
    let sb = b.stages.bits;
    assert(sa | sb == sb | sa) by (bit_vector);
    assert(l.descriptors.dom() =~= r.descriptors.dom());
    assert forall|k: u64| l.descriptors.contains_key(k) implies spec_dr_equivalent(
        #[trigger] l.descriptors[k],
        r.descriptors[k],
    ) by {
        if a.descriptors.contains_key(k) && b.descriptors.contains_key(k) {
            lemma_dr_merge_commutative(a.descriptors[k], b.descriptors[k]);
        } else {
            assert(l.descriptors[k] == r.descriptors[k]);
            assert(l.descriptors[k].sampler_with_images.to_set()
                =~= r.descriptors[k].sampler_with_images.to_set());
        }
    }
}

/// Merging requirement sets is associative: for three pairwise
/// conflict-free requirement sets, merging the first two and then the third
/// conflicts exactly when merging the last two and then the first does, and
/// when neither conflicts the two merge orders produce the same
/// requirements, up to the order of the allowed-type list and of the
/// sampler/image pairing sets.
pub proof fn lemma_merge_associative(
    a: DescriptorBindingRequirementsView,
    b: DescriptorBindingRequirementsView,
    c: DescriptorBindingRequirementsView,
)
    requires
        spec_merge_conflict(a, b) is None,
        spec_merge_conflict(b, c) is None,
        spec_merge_conflict(a, c) is None,
    ensures
        spec_merge_conflict(spec_merged_binding(a, b), c) is None <==> spec_merge_conflict(
            a,
            spec_merged_binding(b, c),
        ) is None,
        spec_merge_conflict(spec_merged_binding(a, b), c) is None ==> spec_binding_equivalent(
            spec_merged_binding(spec_merged_binding(a, b), c),
            spec_merged_binding(a, spec_merged_binding(b, c)),
        ),
{
    let ab = spec_merged_binding(a, b);
    let bc = spec_merged_binding(b, c);
    lemma_types_intersection(a.descriptor_types, b.descriptor_types);
    lemma_types_intersection(b.descriptor_types, c.descriptor_types);
    lemma_types_intersection(ab.descriptor_types, c.descriptor_types);
    lemma_types_intersection(a.descriptor_types, bc.descriptor_types);

    // With all pairwise conflicts ruled out, only the type intersection can
    // still become empty, and it is the same three-way intersection on both
    // sides.
    assert(spec_types_overlap(ab.descriptor_types, c.descriptor_types) <==> spec_types_overlap(
        a.descriptor_types,
        bc.descriptor_types,
    )) by {
        if spec_types_overlap(ab.descriptor_types, c.descriptor_types) {
            let t = choose|t: DescriptorType|
                ab.descriptor_types.contains(t) && c.descriptor_types.contains(t);
            assert(ab.descriptor_types.to_set().contains(t));
            assert(a.descriptor_types.contains(t) && b.descriptor_types.contains(t));
            assert(bc.descriptor_types.to_set().contains(t));
            assert(a.descriptor_types.contains(t) && bc.descriptor_types.contains(t));
        }
        if spec_types_overlap(a.descriptor_types, bc.descriptor_types) {
            let t = choose|t: DescriptorType|
                a.descriptor_types.contains(t) && bc.descriptor_types.contains(t);
            assert(bc.descriptor_types.to_set().contains(t));
            assert(b.descriptor_types.contains(t) && c.descriptor_types.contains(t));
            assert(ab.descriptor_types.to_set().contains(t));
            assert(ab.descriptor_types.contains(t) && c.descriptor_types.contains(t));
        }
    }
    if spec_merge_conflict(ab, c) is None {
        let l = spec_merged_binding(ab, c);
        let r = spec_merged_binding(a, bc);
        lemma_types_intersection(ab.descriptor_types, c.descriptor_types);
        lemma_types_intersection(a.descriptor_types, bc.descriptor_types);
        assert(l.descriptor_types.to_set() =~= r.descriptor_types.to_set()) by {
            assert(ab.descriptor_types.to_set().intersect(c.descriptor_types.to_set())
                =~= a.descriptor_types.to_set().intersect(
                bc.descriptor_types.to_set(),
            ));
        }
        let sa = a.stages.bits;
        let sb = b.stages.bits;
        let sc = c.stages.bits;
        assert((sa | sb) | sc == sa | (sb | sc)) by (bit_vector);
        assert(l.descriptors.dom() =~= r.descriptors.dom());
        assert forall|k: u64| l.descriptors.contains_key(k) implies spec_dr_equivalent(
            #[trigger] l.descriptors[k],
            r.descriptors[k],
        ) by {
            let ina = a.descriptors.contains_key(k);
            let inb = b.descriptors.contains_key(k);
            let inc = c.descriptors.contains_key(k);
            if ina && inb && inc {
                lemma_dr_merge_associative(a.descriptors[k], b.descriptors[k], c.descriptors[k]);
            } else if ina && inb {
                assert(l.descriptors[k] == r.descriptors[k]);
                lemma_dr_refl(l.descriptors[k]);
            } else if ina && inc {
                assert(l.descriptors[k] == spec_merge_descriptor_requirements(
                    a.descriptors[k],
                    c.descriptors[k],
                ));
                assert(r.descriptors[k] == spec_merge_descriptor_requirements(
                    a.descriptors[k],
                    c.descriptors[k],
                ));
                lemma_dr_refl(l.descriptors[k]);
            } else if inb && inc {
                assert(l.descriptors[k] == spec_merge_descriptor_requirements(
                    b.descriptors[k],
                    c.descriptors[k],
                ));
                assert(r.descriptors[k] == spec_merge_descriptor_requirements(
                    b.descriptors[k],
                    c.descriptors[k],
                ));
                lemma_dr_refl(l.descriptors[k]);
            } else {
                assert(l.descriptors[k] == r.descriptors[k]);
                lemma_dr_refl(l.descriptors[k]);
            }
        }
    }
}

/// Equivalence of per-descriptor views is reflexive.
proof fn lemma_dr_refl(x: DescriptorRequirementsView)
    ensures
        spec_dr_equivalent(x, x),
{
}

} // verus!
