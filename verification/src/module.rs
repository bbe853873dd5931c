//! Shader modules: a decoded instruction graph together with the
//! specialization constants discovered in it, specialized variants with
//! caller-supplied override values, and the entry points they expose.

use vstd::prelude::*;

use std::sync::Arc;

use crate::idmap::KeyMap;
use crate::reflect;
use crate::reflect::spec_entry_points;
use crate::reflect::spec_specialization_constants;
use crate::reflect::EntryPointInfo;
use crate::reflect::EntryPointInfoView;
use crate::spirv::spec_apply_specialization;
use crate::spirv::InstructionView;
use crate::stages::ExecutionModel;
use crate::spec_constant::spec_eq_type;
use crate::spec_constant::SpecializationConstant;
use crate::spirv::spec_capabilities;
use crate::spirv::spec_decode;
use crate::spirv::spec_extensions;
use crate::spirv::DecodeError;
use crate::spirv::Spirv;
use crate::spirv::SpirvView;
use crate::spirv::Version;

verus! {

/// Relies on `Arc::clone`: the clone is a new handle to the same value.
#[verifier::external_body]
fn arc_clone<T>(a: &Arc<T>) -> (r: Arc<T>)
    ensures
        r == *a,
{
    a.clone()
}

/// Parameters to create a new shader module.
pub struct ShaderModuleCreateInfo<'a> {
    /// The code, in the form of 32-bit words.
    pub code: &'a [u32],
}

impl<'a> ShaderModuleCreateInfo<'a> {
    /// Returns a `ShaderModuleCreateInfo` with the specified `code`.
    pub fn new(code: &'a [u32]) -> (r: Self)
        ensures
            r.code@ == code@,
    {
        Self { code }
    }
}

/// What the target platform declares it supports: its API version, whether
/// it carries the extension that unlocks binary version 1.4, and the
/// capabilities and extensions it accepts in a module.
pub struct DeviceEnvironment {
    /// The supported API version.
    pub api_version: Version,
    /// Whether the device extension unlocking binary version 1.4 is enabled.
    pub khr_spirv_1_4: bool,
    /// The capability operands the platform supports.
    pub supported_capabilities: Vec<u32>,
    /// The extension names the platform supports.
    pub supported_extensions: Vec<Vec<u8>>,
}

/// The mathematical content of a device environment.
#[verifier::ext_equal]
pub struct DeviceEnvironmentView {
    pub api_version: Version,
    pub khr_spirv_1_4: bool,
    pub supported_capabilities: Seq<u32>,
    pub supported_extensions: Seq<Seq<u8>>,
}

impl View for DeviceEnvironment {
    type V = DeviceEnvironmentView;

    open spec fn view(&self) -> DeviceEnvironmentView {
        DeviceEnvironmentView {
            api_version: self.api_version,
            khr_spirv_1_4: self.khr_spirv_1_4,
            supported_capabilities: self.supported_capabilities@,
            supported_extensions: self.supported_extensions@.map_values(|v: Vec<u8>| v@),
        }
    }
}

/// Why a decoded module was rejected against a target environment.
#[derive(Clone, Copy, Debug, PartialEq, Eq, Structural)]
pub enum ValidationError {
    /// The code is empty.
    EmptyCode,
    /// The environment does not support this binary version.
    UnsupportedSpirvVersion { major: u32, minor: u32 },
    /// The module requires this capability, which the environment does not
    /// declare.
    CapabilityNotSupported { capability: u32 },
    /// The module requires the extension at this position of its extension
    /// list, which the environment does not declare.
    ExtensionNotSupported { index: usize },
}

/// Why a shader module could not be created.
#[derive(Clone, Copy, Debug, PartialEq, Eq, Structural)]
pub enum ShaderModuleError {
    /// The word stream could not be decoded.
    Decode(DecodeError),
    /// The decoded module was rejected against the target environment.
    Validation(ValidationError),
    /// A byte slice's length is not a multiple of four.
    InvalidByteLength,
}

/// Whether `api` is at least version `major.minor`.
pub open spec fn spec_api_at_least(api: Version, major: u32, minor: u32) -> bool {
    api.major > major || (api.major == major && api.minor >= minor)
}

/// Whether the environment supports a module of the given binary version.
/// Version 1.0 is always supported; 1.1 through 1.3 need API 1.1; 1.4 needs
/// API 1.2 or the dedicated extension; 1.5 needs API 1.2; 1.6 needs API
/// 1.3. The patch version is ignored.
pub open spec fn spec_version_supported(v: Version, env: DeviceEnvironmentView) -> bool {
    if v.major != 1 {
        false
    } else if v.minor == 0 {
        true
    } else if v.minor <= 3 {
        spec_api_at_least(env.api_version, 1, 1)
    } else if v.minor == 4 {
        spec_api_at_least(env.api_version, 1, 2) || env.khr_spirv_1_4
    } else if v.minor == 5 {
        spec_api_at_least(env.api_version, 1, 2)
    } else if v.minor == 6 {
        spec_api_at_least(env.api_version, 1, 3)
    } else {
        false
    }
}

/// The first capability, from position `i` on, that the environment does
/// not support.
pub open spec fn spec_first_bad_capability(caps: Seq<u32>, env: DeviceEnvironmentView, i: int) -> Option<
    u32,
>
    decreases caps.len() - i,
{
    if i < 0 || i >= caps.len() {
        None
    } else if !env.supported_capabilities.contains(caps[i]) {
        Some(caps[i])
    } else {
        spec_first_bad_capability(caps, env, i + 1)
    }
}

/// The position of the first extension, from position `i` on, that the
/// environment does not support.
pub open spec fn spec_first_bad_extension(
    exts: Seq<Seq<u8>>,
    env: DeviceEnvironmentView,
    i: int,
) -> Option<int>
    decreases exts.len() - i,
{
    if i < 0 || i >= exts.len() {
        None
    } else if !env.supported_extensions.contains(exts[i]) {
        Some(i)
    } else {
        spec_first_bad_extension(exts, env, i + 1)
    }
}

/// What validating a decoded module against an environment returns: empty
/// code is rejected, then an unsupported binary version, then the first
/// required capability the environment lacks, then the first required
/// extension it lacks.
pub open spec fn spec_validate_module(
    code: Seq<u32>,
    g: SpirvView,
    env: DeviceEnvironmentView,
) -> Result<(), ValidationError> {
    if code.len() == 0 {
        Err(ValidationError::EmptyCode)
    } else if !spec_version_supported(g.version, env) {
        Err(
            ValidationError::UnsupportedSpirvVersion {
                major: g.version.major,
                minor: g.version.minor,
            },
        )
    } else {
        match spec_first_bad_capability(spec_capabilities(g.instructions), env, 0) {
            Some(cap) => Err(ValidationError::CapabilityNotSupported { capability: cap }),
            None => match spec_first_bad_extension(spec_extensions(g.instructions), env, 0) {
                Some(i) => Err(ValidationError::ExtensionNotSupported { index: i as usize }),
                None => Ok(()),
            },
        }
    }
}

/// Whether two byte slices hold the same bytes.
fn bytes_eq(a: &[u8], b: &[u8]) -> (r: bool)
    ensures
        r == (a@ == b@),
{
    let n = a.len();
    if n != b.len() {
        proof {
            assert(a@ != b@);
        }
        return false;
    }
    let mut i: usize = 0;
    while i < n
        invariant
            n == a@.len(),
            n == b@.len(),
            i <= n,
            forall|j: int| 0 <= j < i ==> a@[j] == b@[j],
        decreases n - i,
    {
        if a[i] != b[i] {
            proof {
                assert(a@[i as int] != b@[i as int]);
            }
            return false;
        }
        i = i + 1;
    }
    proof {
        assert(a@ =~= b@);
    }
    true
}

/// Whether the environment supports a module of the given binary version.
pub fn version_supported(v: Version, env: &DeviceEnvironment) -> (r: bool)
    ensures
        r == spec_version_supported(v, env@),
{
    let api = env.api_version;
    if v.major != 1 {
        false
    } else if v.minor == 0 {
        true
    } else if v.minor <= 3 {
        api.major > 1 || (api.major == 1 && api.minor >= 1)
    } else if v.minor == 4 {
        api.major > 1 || (api.major == 1 && api.minor >= 2) || env.khr_spirv_1_4
    } else if v.minor == 5 {
        api.major > 1 || (api.major == 1 && api.minor >= 2)
    } else if v.minor == 6 {
        api.major > 1 || (api.major == 1 && api.minor >= 3)
    } else {
        false
    }
}

impl<'a> ShaderModuleCreateInfo<'a> {
    /// Validates a decoded module against a target environment: the code
    /// must be nonempty, and the binary version and every declared
    /// capability and extension must be supported.
    pub fn validate(&self, env: &DeviceEnvironment, spirv: &Spirv) -> (r: Result<
        (),
        ValidationError,
    >)
        requires
            spirv.wf(),
        ensures
            r == spec_validate_module(self.code@, spirv@, env@),
    {
        let ghost iv = spirv@.instructions;
        if self.code.len() == 0 {
            return Err(ValidationError::EmptyCode);
        }
        let v = spirv.version();
        if !version_supported(v, env) {
            return Err(ValidationError::UnsupportedSpirvVersion { major: v.major, minor: v.minor });
        }
        let caps = spirv.capabilities();
        let ghost gcaps = spec_capabilities(iv);
        let cn = caps.len();
        let mut ci: usize = 0;
        while ci < cn
            invariant
                caps@ == gcaps,
                cn == gcaps.len(),
                ci <= cn,
                iv == spirv@.instructions,
                gcaps == spec_capabilities(iv),
                self.code@.len() > 0,
                spec_version_supported(spirv@.version, env@),
                spec_first_bad_capability(gcaps, env@, 0) == spec_first_bad_capability(
                    gcaps,
                    env@,
                    ci as int,
                ),
            decreases cn - ci,
        {
            let cap = caps[ci];
            let mut supported = false;
            let sn = env.supported_capabilities.len();
            let mut si: usize = 0;
            while si < sn
                invariant
                    sn == env.supported_capabilities@.len(),
                    si <= sn,
                    supported == exists|t: int|
                        0 <= t < si && env.supported_capabilities@[t] == cap,
                decreases sn - si,
            {
                if env.supported_capabilities[si] == cap {
                    supported = true;
                }
                si = si + 1;
            }
            proof {
                assert(supported == env@.supported_capabilities.contains(cap));
            }
            if !supported {
                return Err(ValidationError::CapabilityNotSupported { capability: cap });
            }
            ci = ci + 1;
        }
        let exts = spirv.extensions();
        let ghost gexts = spec_extensions(iv);
        let en = exts.len();
        let mut ei: usize = 0;
        proof {
            assert(exts@.map_values(|v: Vec<u8>| v@).len() == gexts.len());
        }
        while ei < en
            invariant
                exts@.map_values(|v: Vec<u8>| v@) == gexts,
                en == gexts.len(),
                en == exts@.len(),
                ei <= en,
                iv == spirv@.instructions,
                self.code@.len() > 0,
                spec_version_supported(spirv@.version, env@),
                spec_first_bad_capability(gcaps, env@, 0) is None,
                gcaps == spec_capabilities(iv),
                gexts == spec_extensions(iv),
                spec_first_bad_extension(gexts, env@, 0) == spec_first_bad_extension(
                    gexts,
                    env@,
                    ei as int,
                ),
            decreases en - ei,
        {
            let ext = &exts[ei];
            proof {
                assert(ext@ == gexts[ei as int]);
            }
            let mut supported = false;
            let sn = env.supported_extensions.len();
            let mut si: usize = 0;
            while si < sn
                invariant
                    sn == env.supported_extensions@.len(),
                    si <= sn,
                    supported == exists|t: int|
                        0 <= t < si && env.supported_extensions@[t]@ == ext@,
                decreases sn - si,
            {
                if bytes_eq(env.supported_extensions[si].as_slice(), ext.as_slice()) {
                    supported = true;
                }
                si = si + 1;
            }
            proof {
                assert(supported == env@.supported_extensions.contains(ext@)) by {
                    if supported {
                        let t = choose|t: int|
                            0 <= t < sn && env.supported_extensions@[t]@ == ext@;
                        assert(env@.supported_extensions[t] == ext@);
                    }
                    if env@.supported_extensions.contains(ext@) {
                        let t = choose|t: int|
                            0 <= t < env@.supported_extensions.len()
                                && env@.supported_extensions[t] == ext@;
                        assert(env.supported_extensions@[t]@ == ext@);
                    }
                }
            }
            if !supported {
                return Err(ValidationError::ExtensionNotSupported { index: ei });
            }
            ei = ei + 1;
        }
        Ok(())
    }
}

/// Contains a decoded module with one or more entry points, plus the
/// specialization constants discovered in it. Immutable once created;
/// specializing it produces a new module and never mutates this one, so a
/// module can be shared freely.
#[derive(Debug)]
pub struct ShaderModule {
    spirv: Spirv,
    specialization_constants: KeyMap<SpecializationConstant>,
}

impl View for ShaderModule {
    type V = SpirvView;

    closed spec fn view(&self) -> SpirvView {
        self.spirv@
    }
}

/// What creating a module from words produces: the decoded module when both
/// decoding and environment validation succeed, and the first error
/// otherwise.
pub open spec fn spec_create_module(words: Seq<u32>, env: DeviceEnvironmentView) -> Result<
    SpirvView,
    ShaderModuleError,
> {
    match spec_decode(words) {
        Err(e) => Err(ShaderModuleError::Decode(e)),
        Ok(g) => match spec_validate_module(words, g, env) {
            Err(e) => Err(ShaderModuleError::Validation(e)),
            Ok(()) => Ok(g),
        },
    }
}

impl ShaderModule {
    /// The decoded graph and the reflected constant table agree.
    pub closed spec fn wf(self) -> bool {
        &&& self.spirv.wf()
        &&& self.specialization_constants.wf()
        &&& self.specialization_constants@ == spec_specialization_constants(self@.instructions)
    }

    /// Creates a new shader module: decodes the code, validates it against
    /// the environment, and reflects its specialization constants.
    pub fn new(env: &DeviceEnvironment, create_info: ShaderModuleCreateInfo<'_>) -> (r: Result<
        Arc<ShaderModule>,
        ShaderModuleError,
    >)
        ensures
            match r {
                Ok(m) => spec_create_module(create_info.code@, env@) == Ok::<
                    SpirvView,
                    ShaderModuleError,
                >((*m)@) && (*m).wf(),
                Err(e) => spec_create_module(create_info.code@, env@) == Err::<
                    SpirvView,
                    ShaderModuleError,
                >(e),
            },
    {
        let spirv = match Spirv::new(create_info.code) {
            Ok(g) => g,
            Err(e) => {
                return Err(ShaderModuleError::Decode(e));
            },
        };
        match create_info.validate(env, &spirv) {
            Ok(()) => {},
            Err(e) => {
                return Err(ShaderModuleError::Validation(e));
            },
        }
        let specialization_constants = reflect::specialization_constants(&spirv);
        Ok(Arc::new(ShaderModule { spirv, specialization_constants }))
    }

    /// As `new`, but skips validation against a target environment; callers
    /// must have established elsewhere that the environment supports the
    /// module's binary version, capabilities and extensions.
    pub fn new_unchecked(create_info: ShaderModuleCreateInfo<'_>) -> (r: Result<
        Arc<ShaderModule>,
        DecodeError,
    >)
        ensures
            match r {
                Ok(m) => spec_decode(create_info.code@) == Ok::<SpirvView, DecodeError>((*m)@) && (
                *m).wf(),
                Err(e) => spec_decode(create_info.code@) == Err::<SpirvView, DecodeError>(e),
            },
    {
        let spirv = match Spirv::new(create_info.code) {
            Ok(g) => g,
            Err(e) => {
                return Err(e);
            },
        };
        let specialization_constants = reflect::specialization_constants(&spirv);
        Ok(Arc::new(ShaderModule { spirv, specialization_constants }))
    }

    /// Builds a new shader module from 32-bit words.
    pub fn from_words(env: &DeviceEnvironment, words: &[u32]) -> (r: Result<
        Arc<ShaderModule>,
        ShaderModuleError,
    >)
        ensures
            match r {
                Ok(m) => spec_create_module(words@, env@) == Ok::<SpirvView, ShaderModuleError>(
                    (*m)@,
                ) && (*m).wf(),
                Err(e) => spec_create_module(words@, env@) == Err::<SpirvView, ShaderModuleError>(
                    e,
                ),
            },
    {
        Self::new(env, ShaderModuleCreateInfo::new(words))
    }

    /// As `from_words`, but takes a slice of bytes, little-endian. Fails if
    /// the length of `bytes` is not a multiple of 4.
    pub fn from_bytes(env: &DeviceEnvironment, bytes: &[u8]) -> (r: Result<
        Arc<ShaderModule>,
        ShaderModuleError,
    >)
        ensures
            match r {
                Ok(m) => bytes@.len() % 4 == 0 && spec_create_module(
                    crate::spirv::spec_bytes_to_words(bytes@),
                    env@,
                ) == Ok::<SpirvView, ShaderModuleError>((*m)@) && (*m).wf(),
                Err(e) => if bytes@.len() % 4 != 0 {
                    e == ShaderModuleError::InvalidByteLength
                } else {
                    spec_create_module(crate::spirv::spec_bytes_to_words(bytes@), env@) == Err::<
                        SpirvView,
                        ShaderModuleError,
                    >(e)
                },
            },
    {
        match crate::spirv::bytes_to_words(bytes) {
            Some(words) => Self::from_words(env, words.as_slice()),
            None => Err(ShaderModuleError::InvalidByteLength),
        }
    }

    /// Returns the specialization constants that are declared in the module,
    /// along with their default values, keyed by their specialization-
    /// constant ID.
    pub fn specialization_constants(&self) -> (r: &KeyMap<SpecializationConstant>)
        requires
            self.wf(),
        ensures
            r@ == spec_specialization_constants(self@.instructions),
            r.wf(),
    {
        &self.specialization_constants
    }

    /// Applies the specialization to the shader module, and returns a
    /// specialized version of the module. Constants that are not given a
    /// value keep the default declared in the code; a value provided for a
    /// declared constant must have the same type as the declared default.
    pub fn specialize(self: &Arc<Self>, specialization_info: KeyMap<SpecializationConstant>) -> (r:
        Result<Arc<SpecializedShaderModule>, SpecializationError>)
        requires
            (**self).wf(),
            specialization_info.wf(),
        ensures
            match r {
                Ok(m) => spec_first_type_mismatch(
                    spec_specialization_constants((**self)@.instructions),
                    specialization_info.entries(),
                    0,
                ) is None && (*m).wf() && (*m).base_view() == (**self)@ && (*m).info_map()
                    == specialization_info@ && (*m).instructions() == spec_final_instructions(
                    (**self)@.instructions,
                    specialization_info@,
                ) && (*m).entry_points_view() == spec_entry_points((*m).instructions()) && (
                *m).shares_base_graph() == !spec_has_effective_override(
                    spec_specialization_constants((**self)@.instructions),
                    specialization_info@,
                ),
                Err(e) => spec_first_type_mismatch(
                    spec_specialization_constants((**self)@.instructions),
                    specialization_info.entries(),
                    0,
                ) matches Some(cid) && e == (SpecializationError::TypeMismatch {
                    constant_id: cid as u32,
                }),
            },
    {
        SpecializedShaderModule::new(arc_clone(self), specialization_info)
    }

    /// As `specialize`, but skips validation; callers must have established
    /// that every override for a declared constant has the declared type.
    pub fn specialize_unchecked(
        self: &Arc<Self>,
        specialization_info: KeyMap<SpecializationConstant>,
    ) -> (r: Arc<SpecializedShaderModule>)
        requires
            (**self).wf(),
            specialization_info.wf(),
            spec_specialization_valid(
                spec_specialization_constants((**self)@.instructions),
                specialization_info@,
            ),
        ensures
            (*r).wf(),
            (*r).base_view() == (**self)@,
            (*r).info_map() == specialization_info@,
            (*r).instructions() == spec_final_instructions(
                (**self)@.instructions,
                specialization_info@,
            ),
            (*r).entry_points_view() == spec_entry_points((*r).instructions()),
            (*r).shares_base_graph() == !spec_has_effective_override(
                spec_specialization_constants((**self)@.instructions),
                specialization_info@,
            ),
    {
        SpecializedShaderModule::new_unchecked(arc_clone(self), specialization_info)
    }

    /// Equivalent to specializing with empty specialization info and asking
    /// for the entry point with the provided name.
    pub fn entry_point(self: &Arc<Self>, name: &[u8]) -> (r: Option<EntryPoint>)
        requires
            (**self).wf(),
        ensures
            match r {
                Some(ep) => spec_single_match(
                    spec_entry_points((**self)@.instructions),
                    Some(name@),
                    None,
                ) matches Some(j) && ep.wf() && ep.spec_index() == j && ep@ == spec_entry_points(
                    (**self)@.instructions,
                )[j],
                None => spec_single_match(
                    spec_entry_points((**self)@.instructions),
                    Some(name@),
                    None,
                ) is None,
            },
    {
        let m = self.specialize_unchecked(KeyMap::new());
        m.entry_point(name)
    }

    /// Equivalent to specializing with empty specialization info and asking
    /// for the entry point with the provided name and execution model.
    pub fn entry_point_with_execution(
        self: &Arc<Self>,
        name: &[u8],
        execution: ExecutionModel,
    ) -> (r: Option<EntryPoint>)
        requires
            (**self).wf(),
        ensures
            match r {
                Some(ep) => spec_single_match(
                    spec_entry_points((**self)@.instructions),
                    Some(name@),
                    Some(execution),
                ) matches Some(j) && ep.wf() && ep.spec_index() == j && ep@ == spec_entry_points(
                    (**self)@.instructions,
                )[j],
                None => spec_single_match(
                    spec_entry_points((**self)@.instructions),
                    Some(name@),
                    Some(execution),
                ) is None,
            },
    {
        let m = self.specialize_unchecked(KeyMap::new());
        m.entry_point_with_execution(name, execution)
    }

    /// Equivalent to specializing with empty specialization info and asking
    /// for the single entry point, if there is exactly one.
    pub fn single_entry_point(self: &Arc<Self>) -> (r: Option<EntryPoint>)
        requires
            (**self).wf(),
        ensures
            match r {
                Some(ep) => spec_single_match(
                    spec_entry_points((**self)@.instructions),
                    None,
                    None,
                ) matches Some(j) && ep.wf() && ep.spec_index() == j && ep@ == spec_entry_points(
                    (**self)@.instructions,
                )[j],
                None => spec_single_match(
                    spec_entry_points((**self)@.instructions),
                    None,
                    None,
                ) is None,
            },
    {
        let m = self.specialize_unchecked(KeyMap::new());
        m.single_entry_point()
    }

    /// Equivalent to specializing with empty specialization info and asking
    /// for the single entry point of the given execution model.
    pub fn single_entry_point_with_execution(self: &Arc<Self>, execution: ExecutionModel) -> (r:
        Option<EntryPoint>)
        requires
            (**self).wf(),
        ensures
            match r {
                Some(ep) => spec_single_match(
                    spec_entry_points((**self)@.instructions),
                    None,
                    Some(execution),
                ) matches Some(j) && ep.wf() && ep.spec_index() == j && ep@ == spec_entry_points(
                    (**self)@.instructions,
                )[j],
                None => spec_single_match(
                    spec_entry_points((**self)@.instructions),
                    None,
                    Some(execution),
                ) is None,
            },
    {
        let m = self.specialize_unchecked(KeyMap::new());
        m.single_entry_point_with_execution(execution)
    }
}

/// Why a specialization was rejected.
#[derive(Clone, Copy, Debug, PartialEq, Eq, Structural)]
pub enum SpecializationError {
    /// The override provided for this constant does not have the same type
    /// as the constant's declared default.
    TypeMismatch { constant_id: u32 },
}

/// Every override that names a declared constant has the declared type.
/// Overrides that name no declared constant do not affect the module.
pub open spec fn spec_specialization_valid(
    declared: Map<u64, SpecializationConstant>,
    info: Map<u64, SpecializationConstant>,
) -> bool {
    forall|k: u64|
        info.contains_key(k) && declared.contains_key(k) ==> spec_eq_type(
            #[trigger] info[k],
            declared[k],
        )
}

/// The first override entry, in key order from position `i` on, that names
/// a declared constant of a different type.
pub open spec fn spec_first_type_mismatch(
    declared: Map<u64, SpecializationConstant>,
    entries: Seq<(u64, SpecializationConstant)>,
    i: int,
) -> Option<u64>
    decreases entries.len() - i,
{
    if i < 0 || i >= entries.len() {
        None
    } else if declared.contains_key(entries[i].0) && !spec_eq_type(
        entries[i].1,
        declared[entries[i].0],
    ) {
        Some(entries[i].0)
    } else {
        spec_first_type_mismatch(declared, entries, i + 1)
    }
}

/// When no entry mismatches, the whole specialization is valid.
proof fn lemma_no_mismatch_valid(
    declared: Map<u64, SpecializationConstant>,
    info: KeyMap<SpecializationConstant>,
)
    requires
        info.wf(),
        spec_first_type_mismatch(declared, info.entries(), 0) is None,
    ensures
        spec_specialization_valid(declared, info@),
{
    lemma_mismatch_none_from(declared, info.entries(), 0);
    assert forall|k: u64|
        info@.contains_key(k) && declared.contains_key(k) implies spec_eq_type(
        #[trigger] info@[k],
        declared[k],
    ) by {
        let i = crate::idmap::lemma_assoc_get_some_index(info.entries(), k);
        info.lemma_entries_agree_with_view();
    }
}

/// No entry from position `i` on mismatches when the search finds nothing.
proof fn lemma_mismatch_none_from(
    declared: Map<u64, SpecializationConstant>,
    entries: Seq<(u64, SpecializationConstant)>,
    i: int,
)
    requires
        0 <= i,
        spec_first_type_mismatch(declared, entries, i) is None,
    ensures
        forall|j: int|
            0 <= j < entries.len() && i <= j ==> !(declared.contains_key(
                (#[trigger] entries[j]).0,
            ) && !spec_eq_type(entries[j].1, declared[entries[j].0])),
    decreases entries.len() - i,
{
    if !(i < 0 || i >= entries.len()) {
        lemma_mismatch_none_from(declared, entries, i + 1);
        assert forall|j: int|
            0 <= j < entries.len() && i <= j implies !(declared.contains_key(
            (#[trigger] entries[j]).0,
        ) && !spec_eq_type(entries[j].1, declared[entries[j].0])) by {
            if j == i {
                assert(!(declared.contains_key(entries[i].0) && !spec_eq_type(
                    entries[i].1,
                    declared[entries[i].0],
                )));
            }
        }
    }
}

/// Whether any override names a declared constant, in which case
/// specializing must rewrite a copy of the graph.
pub open spec fn spec_has_effective_override(
    declared: Map<u64, SpecializationConstant>,
    info: Map<u64, SpecializationConstant>,
) -> bool {
    exists|k: u64| #[trigger] info.contains_key(k) && declared.contains_key(k)
}

/// The instruction graph a specialized module exposes: a rewritten copy
/// when an override is effective, and the base module's own graph otherwise.
pub open spec fn spec_final_instructions(
    insts: Seq<InstructionView>,
    info: Map<u64, SpecializationConstant>,
) -> Seq<InstructionView> {
    if spec_has_effective_override(spec_specialization_constants(insts), info) {
        spec_apply_specialization(insts, info)
    } else {
        insts
    }
}

/// A shader module with specialization constants applied: the base module
/// (kept alive through shared ownership), the overrides, the derived
/// instruction graph (present only when a constant actually needed
/// rewriting; otherwise the base graph is shared unchanged), and the entry
/// points reflected from the result.
#[derive(Debug)]
pub struct SpecializedShaderModule {
    base_module: Arc<ShaderModule>,
    specialization_info: KeyMap<SpecializationConstant>,
    spirv: Option<Spirv>,
    entry_point_infos: Vec<(u32, EntryPointInfo)>,
}

impl SpecializedShaderModule {
    /// The base module's decoded content.
    pub closed spec fn base_view(self) -> SpirvView {
        (*self.base_module)@
    }

    /// The overrides that were applied.
    pub closed spec fn info_map(self) -> Map<u64, SpecializationConstant> {
        self.specialization_info@
    }

    /// The instruction graph the module exposes.
    pub closed spec fn instructions(self) -> Seq<InstructionView> {
        match self.spirv {
            Some(g) => g@.instructions,
            None => self.base_view().instructions,
        }
    }

    /// Whether the module shares the base module's graph instead of holding
    /// a rewritten copy.
    pub closed spec fn shares_base_graph(self) -> bool {
        self.spirv is None
    }

    /// The reflected entry points.
    pub closed spec fn entry_points_view(self) -> Seq<(u32, EntryPointInfoView)> {
        self.entry_point_infos@.map_values(|p: (u32, EntryPointInfo)| (p.0, p.1@))
    }

    /// The derived graph is exactly what specialization prescribes, it is
    /// shared rather than copied exactly when no override is effective, and
    /// the cached entry points are the reflection of the exposed graph.
    pub closed spec fn wf(self) -> bool {
        &&& (*self.base_module).wf()
        &&& self.specialization_info.wf()
        &&& self.shares_base_graph() == !spec_has_effective_override(
            spec_specialization_constants(self.base_view().instructions),
            self.info_map(),
        )
        &&& self.instructions() == spec_final_instructions(
            self.base_view().instructions,
            self.info_map(),
        )
        &&& match self.spirv {
            Some(g) => g.wf(),
            None => true,
        }
        &&& self.entry_points_view() == spec_entry_points(self.instructions())
        &&& forall|i: int|
            0 <= i < self.entry_point_infos@.len() ==> (#[trigger] self.entry_point_infos@[i]).1.wf()
    }

    /// Returns `base_module` specialized with `specialization_info`: the
    /// overrides are validated against the declared constants, and on
    /// success the rewriting is applied atomically to a new graph. A type
    /// mismatch fails the whole operation before anything is rewritten, and
    /// the base module is unaffected.
    pub fn new(
        base_module: Arc<ShaderModule>,
        specialization_info: KeyMap<SpecializationConstant>,
    ) -> (r: Result<Arc<Self>, SpecializationError>)
        requires
            (*base_module).wf(),
            specialization_info.wf(),
        ensures
            match r {
                Ok(m) => spec_first_type_mismatch(
                    spec_specialization_constants((*base_module)@.instructions),
                    specialization_info.entries(),
                    0,
                ) is None && (*m).wf() && (*m).base_view() == (*base_module)@ && (*m).info_map()
                    == specialization_info@ && (*m).instructions() == spec_final_instructions(
                    (*base_module)@.instructions,
                    specialization_info@,
                ) && (*m).entry_points_view() == spec_entry_points((*m).instructions()) && (
                *m).shares_base_graph() == !spec_has_effective_override(
                    spec_specialization_constants((*base_module)@.instructions),
                    specialization_info@,
                ),
                Err(e) => spec_first_type_mismatch(
                    spec_specialization_constants((*base_module)@.instructions),
                    specialization_info.entries(),
                    0,
                ) matches Some(cid) && e == (SpecializationError::TypeMismatch {
                    constant_id: cid as u32,
                }),
            },
    {
        let ghost declared = spec_specialization_constants((*base_module)@.instructions);
        let n = specialization_info.len();
        let mut i: usize = 0;
        while i < n
            invariant
                (*base_module).wf(),
                declared == spec_specialization_constants((*base_module)@.instructions),
                n == specialization_info.entries().len(),
                i <= n,
                spec_first_type_mismatch(declared, specialization_info.entries(), 0)
                    == spec_first_type_mismatch(declared, specialization_info.entries(), i as int),
            decreases n - i,
        {
            let e = specialization_info.entry_at(i);
            let cid = e.0;
            match base_module.specialization_constants.get(cid) {
                Some(default_value) => {
                    if !e.1.eq_type(default_value) {
                        return Err(SpecializationError::TypeMismatch { constant_id: cid as u32 });
                    }
                },
                None => {},
            }
            i = i + 1;
        }
        proof {
            lemma_no_mismatch_valid(declared, specialization_info);
        }
        Ok(Self::new_unchecked(base_module, specialization_info))
    }

    /// As `new`, but skips validation; callers must have established that
    /// every override for a declared constant has the declared type.
    pub fn new_unchecked(
        base_module: Arc<ShaderModule>,
        specialization_info: KeyMap<SpecializationConstant>,
    ) -> (r: Arc<Self>)
        requires
            (*base_module).wf(),
            specialization_info.wf(),
            spec_specialization_valid(
                spec_specialization_constants((*base_module)@.instructions),
                specialization_info@,
            ),
        ensures
            (*r).wf(),
            (*r).base_view() == (*base_module)@,
            (*r).info_map() == specialization_info@,
            (*r).instructions() == spec_final_instructions(
                (*base_module)@.instructions,
                specialization_info@,
            ),
            (*r).entry_points_view() == spec_entry_points((*r).instructions()),
            (*r).shares_base_graph() == !spec_has_effective_override(
                spec_specialization_constants((*base_module)@.instructions),
                specialization_info@,
            ),
    {
        let ghost declared = spec_specialization_constants((*base_module)@.instructions);
        let mut effective = false;
        let n = specialization_info.len();
        let mut i: usize = 0;
        while i < n
            invariant
                (*base_module).wf(),
                declared == spec_specialization_constants((*base_module)@.instructions),
                n == specialization_info.entries().len(),
                i <= n,
                effective == exists|j: int|
                    0 <= j < i && declared.contains_key(
                        (#[trigger] specialization_info.entries()[j]).0,
                    ),
            decreases n - i,
        {
            let e = specialization_info.entry_at(i);
            if base_module.specialization_constants.contains_key(e.0) {
                effective = true;
            }
            i = i + 1;
        }
        proof {
            assert(effective == spec_has_effective_override(declared, specialization_info@)) by {
                specialization_info.lemma_entries_agree_with_view();
                if effective {
                    let j = choose|j: int|
                        0 <= j < n && declared.contains_key(
                            (#[trigger] specialization_info.entries()[j]).0,
                        );
                    assert(specialization_info@.contains_key(specialization_info.entries()[j].0));
                } else if spec_has_effective_override(declared, specialization_info@) {
                    let k = choose|k: u64| #[trigger]
                        specialization_info@.contains_key(k) && declared.contains_key(k);
                    let j = crate::idmap::lemma_assoc_get_some_index(
                        specialization_info.entries(),
                        k,
                    );
                }
            }
        }
        let spirv: Option<Spirv> = if effective {
            Some(base_module.spirv.specialized(&specialization_info))
        } else {
            None
        };
        let entry_point_infos = match &spirv {
            Some(g) => reflect::entry_points(g),
            None => reflect::entry_points(&base_module.spirv),
        };
        Arc::new(
            SpecializedShaderModule {
                base_module,
                specialization_info,
                spirv,
                entry_point_infos,
            },
        )
    }

    /// Returns the base module, without specialization applied.
    pub fn base_module(&self) -> (r: &Arc<ShaderModule>)
        requires
            self.wf(),
        ensures
            (**r)@ == self.base_view(),
            (**r).wf(),
    {
        &self.base_module
    }

    /// Returns the instruction graph of this module: the rewritten copy when
    /// an override was effective, and the base module's own graph otherwise.
    pub fn spirv(&self) -> (r: &Spirv)
        requires
            self.wf(),
        ensures
            r@.instructions == self.instructions(),
            r.wf(),
    {
        match &self.spirv {
            Some(g) => g,
            None => &self.base_module.spirv,
        }
    }

    /// Returns the specialization constants that have been applied to the
    /// module.
    pub fn specialization_info(&self) -> (r: &KeyMap<SpecializationConstant>)
        requires
            self.wf(),
        ensures
            r@ == self.info_map(),
            r.wf(),
    {
        &self.specialization_info
    }

    /// The number of entry points.
    pub fn entry_point_count(&self) -> (r: usize)
        ensures
            r == self.entry_points_view().len(),
    {
        self.entry_point_infos.len()
    }

    /// The ID and information of the entry point at position `i`.
    pub fn entry_point_at(&self, i: usize) -> (r: (u32, &EntryPointInfo))
        requires
            i < self.entry_points_view().len(),
        ensures
            (r.0, r.1@) == self.entry_points_view()[i as int],
    {
        let p = &self.entry_point_infos[i];
        (p.0, &p.1)
    }

    /// Returns the entry point with the provided name, if exactly one entry
    /// point carries it; several entry points of the same name count as not
    /// found.
    pub fn entry_point(self: &Arc<Self>, name: &[u8]) -> (r: Option<EntryPoint>)
        requires
            (**self).wf(),
        ensures
            match r {
                Some(ep) => spec_single_match(
                    (**self).entry_points_view(),
                    Some(name@),
                    None,
                ) matches Some(j) && ep.wf() && ep.spec_index() == j && ep@ == (**self).entry_points_view()[j],
                None => spec_single_match((**self).entry_points_view(), Some(name@), None) is None,
            },
    {
        self.single_entry_point_matching(Some(name), None)
    }

    /// Returns the entry point with the provided name and execution model,
    /// if exactly one matches.
    pub fn entry_point_with_execution(self: &Arc<Self>, name: &[u8], execution: ExecutionModel) -> (r:
        Option<EntryPoint>)
        requires
            (**self).wf(),
        ensures
            match r {
                Some(ep) => spec_single_match(
                    (**self).entry_points_view(),
                    Some(name@),
                    Some(execution),
                ) matches Some(j) && ep.wf() && ep.spec_index() == j && ep@ == (**self).entry_points_view()[j],
                None => spec_single_match(
                    (**self).entry_points_view(),
                    Some(name@),
                    Some(execution),
                ) is None,
            },
    {
        self.single_entry_point_matching(Some(name), Some(execution))
    }

    /// Returns the single entry point of the module, if it has exactly one.
    pub fn single_entry_point(self: &Arc<Self>) -> (r: Option<EntryPoint>)
        requires
            (**self).wf(),
        ensures
            match r {
                Some(ep) => spec_single_match((**self).entry_points_view(), None, None) matches Some(
                    j,
                ) && ep.wf() && ep.spec_index() == j && ep@ == (**self).entry_points_view()[j],
                None => spec_single_match((**self).entry_points_view(), None, None) is None,
            },
    {
        self.single_entry_point_matching(None, None)
    }

    /// Returns the single entry point of the given execution model, if the
    /// module has exactly one.
    pub fn single_entry_point_with_execution(self: &Arc<Self>, execution: ExecutionModel) -> (r:
        Option<EntryPoint>)
        requires
            (**self).wf(),
        ensures
            match r {
                Some(ep) => spec_single_match(
                    (**self).entry_points_view(),
                    None,
                    Some(execution),
                ) matches Some(j) && ep.wf() && ep.spec_index() == j && ep@ == (**self).entry_points_view()[j],
                None => spec_single_match(
                    (**self).entry_points_view(),
                    None,
                    Some(execution),
                ) is None,
            },
    {
        self.single_entry_point_matching(None, Some(execution))
    }

    /// Checks for exactly one entry point matching the name and execution
    /// model filters; anything else is not found.
    fn single_entry_point_matching(
        self: &Arc<Self>,
        name: Option<&[u8]>,
        execution: Option<ExecutionModel>,
    ) -> (r: Option<EntryPoint>)
        requires
            (**self).wf(),
        ensures
            match r {
                Some(ep) => spec_single_match(
                    (**self).entry_points_view(),
                    spec_name_filter(name),
                    execution,
                ) matches Some(j) && ep.wf() && ep.spec_index() == j && ep@ == (**self).entry_points_view()[j],
                None => spec_single_match(
                    (**self).entry_points_view(),
                    spec_name_filter(name),
                    execution,
                ) is None,
            },
    {
        let self_ref: &SpecializedShaderModule = &**self;
        let ghost eps = self_ref.entry_points_view();
        let ghost gname = spec_name_filter(name);
        let n = self.entry_point_infos.len();
        let mut first: Option<usize> = None;
        let mut i: usize = 0;
        while i < n && first.is_none()
            invariant
                (**self).wf(),
                eps == (**self).entry_points_view(),
                gname == spec_name_filter(name),
                n == eps.len(),
                n == self.entry_point_infos@.len(),
                i <= n,
                match first {
                    None => spec_first_match(eps, gname, execution, 0) == spec_first_match(
                        eps,
                        gname,
                        execution,
                        i as int,
                    ),
                    Some(j) => spec_first_match(eps, gname, execution, 0) == Some(j as int) && j
                        < n,
                },
            decreases n - i, (if first is None { 1int } else { 0int }),
        {
            proof {
                assert(eps[i as int] == (self.entry_point_infos@[i as int].0, self.entry_point_infos@[i as int].1@));
            }
            if Self::info_matches(&self.entry_point_infos[i].1, name, execution) {
                first = Some(i);
            } else {
                i = i + 1;
            }
        }
        match first {
            None => {
                proof {
                    assert(spec_first_match(eps, gname, execution, n as int) is None);
                }
                None
            },
            Some(j) => {
                let mut k: usize = j + 1;
                while k < n
                    invariant
                        (**self).wf(),
                        eps == (**self).entry_points_view(),
                        gname == spec_name_filter(name),
                        n == eps.len(),
                        n == self.entry_point_infos@.len(),
                        j < n,
                        j + 1 <= k <= n,
                        spec_first_match(eps, gname, execution, 0) == Some(j as int),
                        spec_first_match(eps, gname, execution, j as int + 1) == spec_first_match(
                            eps,
                            gname,
                            execution,
                            k as int,
                        ),
                    decreases n - k,
                {
                    proof {
                        assert(eps[k as int] == (self.entry_point_infos@[k as int].0, self.entry_point_infos@[k as int].1@));
                    }
                    if Self::info_matches(&self.entry_point_infos[k].1, name, execution) {
                        return None;
                    }
                    k = k + 1;
                }
                proof {
                    assert(spec_first_match(eps, gname, execution, n as int) is None);
                }
                let id = self.entry_point_infos[j].0;
                Some(EntryPoint { module: arc_clone(self), id, info_index: j })
            },
        }
    }

    /// Whether an entry point's information matches the filters.
    fn info_matches(
        info: &EntryPointInfo,
        name: Option<&[u8]>,
        execution: Option<ExecutionModel>,
    ) -> (r: bool)
        ensures
            r == spec_filter_match(info@, spec_name_filter(name), execution),
    {
        let name_ok = match name {
            Some(nm) => bytes_eq(info.name.as_slice(), nm),
            None => true,
        };
        let exec_ok = match execution {
            Some(em) => info.execution_model == em,
            None => true,
        };
        name_ok && exec_ok
    }
}

/// The name filter as a byte sequence.
pub open spec fn spec_name_filter(name: Option<&[u8]>) -> Option<Seq<u8>> {
    match name {
        Some(nm) => Some(nm@),
        None => None,
    }
}

/// Whether an entry point matches a name filter and an execution-model
/// filter.
pub open spec fn spec_filter_match(
    info: EntryPointInfoView,
    name: Option<Seq<u8>>,
    execution: Option<ExecutionModel>,
) -> bool {
    (match name {
        Some(nm) => info.name == nm,
        None => true,
    }) && (match execution {
        Some(em) => info.execution_model == em,
        None => true,
    })
}

/// The position, at or after `i`, of the first entry point matching the
/// filters.
pub open spec fn spec_first_match(
    eps: Seq<(u32, EntryPointInfoView)>,
    name: Option<Seq<u8>>,
    execution: Option<ExecutionModel>,
    i: int,
) -> Option<int>
    decreases eps.len() - i,
{
    if i < 0 || i >= eps.len() {
        None
    } else if spec_filter_match(eps[i].1, name, execution) {
        Some(i)
    } else {
        spec_first_match(eps, name, execution, i + 1)
    }
}

/// The position of the entry point matching the filters, when exactly one
/// does. An ambiguous filter counts as not found, not as an error.
pub open spec fn spec_single_match(
    eps: Seq<(u32, EntryPointInfoView)>,
    name: Option<Seq<u8>>,
    execution: Option<ExecutionModel>,
) -> Option<int> {
    match spec_first_match(eps, name, execution, 0) {
        Some(j) => if spec_first_match(eps, name, execution, j + 1) is None {
            Some(j)
        } else {
            None
        },
        None => None,
    }
}

/// Represents a shader entry point in a (possibly specialized) shader
/// module; it keeps the module it was found in alive.
#[derive(Debug)]
pub struct EntryPoint {
    module: Arc<SpecializedShaderModule>,
    id: u32,
    info_index: usize,
}

impl EntryPoint {
    /// The ID and reflected information of the entry point.
    pub closed spec fn view(self) -> (u32, EntryPointInfoView) {
        (*self.module).entry_points_view()[self.spec_index()]
    }

    /// The position of the entry point in its module's entry-point table.
    pub closed spec fn spec_index(self) -> int {
        self.info_index as int
    }

    /// The entry point indexes the module's cached entry-point table.
    pub closed spec fn wf(self) -> bool {
        &&& (*self.module).wf()
        &&& self.info_index < (*self.module).entry_points_view().len()
        &&& self.id == (*self.module).entry_points_view()[self.info_index as int].0
    }

    /// Returns the module this entry point comes from.
    pub fn module(&self) -> (r: &Arc<SpecializedShaderModule>)
        requires
            self.wf(),
        ensures
            (**r).wf(),
            0 <= self.spec_index() < (**r).entry_points_view().len(),
            (**r).entry_points_view()[self.spec_index()] == self@,
    {
        proof {
            assert((*self.module).entry_points_view()[self.info_index as int] == self@);
        }
        &self.module
    }

    /// Returns the ID of the entry point's function.
    pub fn id(&self) -> (r: u32)
        requires
            self.wf(),
        ensures
            r == self@.0,
    {
        self.id
    }

    /// Returns information about the entry point.
    pub fn info(&self) -> (r: &EntryPointInfo)
        requires
            self.wf(),
        ensures
            r@ == self@.1,
            r.wf(),
    {
        proof {
            assert((*self.module).entry_point_infos@[self.info_index as int].1@ == self@.1);
        }
        &self.module.entry_point_infos[self.info_index].1
    }
}

/// Decoding a word sequence determines the instruction graph, and with it
/// every reflection output: two successful decodes of the same words yield
/// the same graph, the same declared specialization constants and the same
/// entry-point reflection, independent of any internal iteration order.
pub proof fn lemma_reflection_deterministic(words: Seq<u32>, g1: SpirvView, g2: SpirvView)
    requires
        spec_decode(words) == Ok::<SpirvView, crate::spirv::DecodeError>(g1),
        spec_decode(words) == Ok::<SpirvView, crate::spirv::DecodeError>(g2),
    ensures
        g1 == g2,
        spec_specialization_constants(g1.instructions) == spec_specialization_constants(
            g2.instructions,
        ),
        spec_entry_points(g1.instructions) == spec_entry_points(g2.instructions),
{
}

/// Whether each override of a declared constant repeats the constant's
/// declared default, and each such constant's literal operands are the
/// canonical encoding of that default. Conforming modules encode constants
/// canonically, so this asks only that the overrides match the defaults.
pub open spec fn spec_overrides_match_defaults(
    insts: Seq<InstructionView>,
    info: Map<u64, SpecializationConstant>,
) -> bool {
    forall|i: int|
        0 <= i < insts.len() ==> spec_inst_override_matches(insts, #[trigger] insts[i], info)
}

/// The per-instruction condition of `spec_overrides_match_defaults`.
pub open spec fn spec_inst_override_matches(
    insts: Seq<InstructionView>,
    inst: InstructionView,
    info: Map<u64, SpecializationConstant>,
) -> bool {
    if (inst.opcode == crate::spirv::OP_SPEC_CONSTANT_TRUE || inst.opcode
        == crate::spirv::OP_SPEC_CONSTANT_FALSE || inst.opcode == crate::spirv::OP_SPEC_CONSTANT)
        && inst.operands.len() >= 2 {
        match crate::spirv::spec_decoration_value(
            insts,
            inst.operands[1],
            crate::spirv::DECORATION_SPEC_ID,
        ) {
            Some(cid) => info.contains_key(cid as u64) ==> (match crate::reflect::spec_constant_default(
                insts,
                inst,
            ) {
                Some(v) => info[cid as u64] == v && crate::reflect::spec_canonical_constant(
                    insts,
                    inst,
                ),
                None => false,
            }),
            None => true,
        }
    } else {
        true
    }
}

/// Specializing with no overrides, or with overrides that repeat each
/// declared default exactly, is a no-op: the rewritten graph equals the
/// base graph, so the entry-point reflection of the specialized module is
/// identical to reflecting the base module directly. (With no overrides the
/// base graph is moreover shared rather than copied, which the
/// well-formedness of `SpecializedShaderModule` pins down.)
pub proof fn lemma_matching_overrides_are_noop(
    insts: Seq<InstructionView>,
    info: Map<u64, SpecializationConstant>,
)
    requires
        spec_overrides_match_defaults(insts, info),
    ensures
        spec_apply_specialization(insts, info) == insts,
        spec_final_instructions(insts, info) == insts,
        spec_entry_points(spec_final_instructions(insts, info)) == spec_entry_points(insts),
{
    assert(spec_apply_specialization(insts, info) =~= insts) by {
        assert forall|i: int| 0 <= i < insts.len() implies crate::spirv::spec_patched_inst(
            insts,
            insts[i],
            info,
        ) == insts[i] by {
            let inst = insts[i];
            assert(spec_inst_override_matches(insts, inst, info));
            if (inst.opcode == crate::spirv::OP_SPEC_CONSTANT_TRUE || inst.opcode
                == crate::spirv::OP_SPEC_CONSTANT_FALSE || inst.opcode
                == crate::spirv::OP_SPEC_CONSTANT) && inst.operands.len() >= 2 {
                match crate::spirv::spec_decoration_value(
                    insts,
                    inst.operands[1],
                    crate::spirv::DECORATION_SPEC_ID,
                ) {
                    Some(cid) => {
                        if info.contains_key(cid as u64) {
                            let v = crate::reflect::spec_constant_default(insts, inst)->Some_0;
                            if inst.opcode == crate::spirv::OP_SPEC_CONSTANT {
                                assert(v.spec_literal_words().len() == inst.operands.len() - 2);
                                assert(inst.operands.take(2) + v.spec_literal_words()
                                    =~= inst.operands);
                                assert(crate::spirv::spec_patched_inst(insts, inst, info)
                                    =~= inst);
                            }
                        }
                    },
                    None => {},
                }
            }
        }
    }
}

/// An override whose type differs from the declared type of the constant it
/// names fails validation: the mismatch search reports a conflict, so
/// specialization is rejected before any rewriting, and the base module is
/// left untouched.
pub proof fn lemma_specialization_type_safety(
    declared: Map<u64, SpecializationConstant>,
    info: KeyMap<SpecializationConstant>,
)
    requires
        info.wf(),
        exists|k: u64|
            #[trigger] info@.contains_key(k) && declared.contains_key(k) && !spec_eq_type(
                info@[k],
                declared[k],
            ),
    ensures
        spec_first_type_mismatch(declared, info.entries(), 0) is Some,
{
    if spec_first_type_mismatch(declared, info.entries(), 0) is None {
        lemma_no_mismatch_valid(declared, info);
        let k = choose|k: u64|
            #[trigger] info@.contains_key(k) && declared.contains_key(k) && !spec_eq_type(
                info@[k],
                declared[k],
            );
        assert(spec_eq_type(info@[k], declared[k]));
    }
}

} // verus!
