//! The reflector: walks a decoded instruction graph to extract the
//! specialization constants it declares and, for each entry point, the
//! descriptor-binding requirements, push-constant range and input/output
//! interfaces it imposes.

use vstd::prelude::*;

use crate::spec_constant::SpecializationConstant;
use crate::idmap::KeyMap;
use crate::interface::ShaderInterfaceEntryType;
use crate::formats::NumericType;
use crate::spirv::spec_decoration_value;
use crate::spirv::spec_def;
use crate::spirv::spec_has_decoration;
use crate::spirv::spec_member_decoration_value;
use crate::spirv::spec_take_string;
use crate::spirv::take_string;
use crate::spirv::Instruction;
use crate::spirv::InstructionView;
use crate::spirv::Spirv;
use crate::formats::format_from_word;
use crate::formats::spec_format_from_word;
use crate::formats::DescriptorType;
use crate::formats::Format;
use crate::formats::ImageViewType;
use crate::interface::ShaderInterface;
use crate::interface::ShaderInterfaceEntry;
use crate::interface::ShaderInterfaceEntryView;
use crate::requirements::index_key;
use crate::requirements::spec_descriptor_requirements_none;
use crate::requirements::spec_descriptors_view;
use crate::requirements::spec_ids_insert;
use crate::requirements::spec_index_key;
use crate::requirements::DescriptorBindingRequirements;
use crate::requirements::DescriptorBindingRequirementsView;
use crate::requirements::DescriptorIdentifier;
use crate::requirements::DescriptorRequirements;
use crate::requirements::DescriptorRequirementsView;
use crate::requirements::PushConstantRange;
use crate::stages::ShaderStages;
use crate::stages::spec_execution_model;
use crate::stages::spec_stage_of_execution_model;
use crate::stages::ExecutionModel;
use crate::stages::ShaderStage;
use crate::spirv::DECORATION_BINDING;
use crate::spirv::DECORATION_BUFFER_BLOCK;
use crate::spirv::DECORATION_DESCRIPTOR_SET;
use crate::spirv::OP_ENTRY_POINT;
use crate::spirv::OP_ACCESS_CHAIN;
use crate::spirv::OP_ATOMIC_EXCHANGE;
use crate::spirv::OP_ATOMIC_LOAD;
use crate::spirv::OP_ATOMIC_STORE;
use crate::spirv::OP_ATOMIC_XOR;
use crate::spirv::OP_COPY_OBJECT;
use crate::spirv::OP_IMAGE_DREF_GATHER;
use crate::spirv::OP_IMAGE_FETCH;
use crate::spirv::OP_IMAGE_GATHER;
use crate::spirv::OP_IMAGE_READ;
use crate::spirv::OP_IMAGE_SAMPLE_IMPLICIT_LOD;
use crate::spirv::OP_IMAGE_SAMPLE_PROJ_DREF_EXPLICIT_LOD;
use crate::spirv::OP_IMAGE_TEXEL_POINTER;
use crate::spirv::OP_IMAGE_WRITE;
use crate::spirv::OP_IN_BOUNDS_ACCESS_CHAIN;
use crate::spirv::OP_LOAD;
use crate::spirv::OP_PTR_ACCESS_CHAIN;
use crate::spirv::OP_SAMPLED_IMAGE;
use crate::spirv::OP_STORE;
use crate::spirv::OP_TYPE_IMAGE;
use crate::spirv::OP_TYPE_RUNTIME_ARRAY;
use crate::spirv::OP_TYPE_SAMPLED_IMAGE;
use crate::spirv::OP_TYPE_SAMPLER;
use crate::spirv::DECORATION_ARRAY_STRIDE;
use crate::spirv::DECORATION_BUILT_IN;
use crate::spirv::DECORATION_COMPONENT;
use crate::spirv::DECORATION_INDEX;
use crate::spirv::DECORATION_LOCATION;
use crate::spirv::DECORATION_OFFSET;
use crate::spirv::DECORATION_SPEC_ID;
use crate::spirv::OP_CONSTANT;
use crate::spirv::OP_FUNCTION;
use crate::spirv::OP_FUNCTION_CALL;
use crate::spirv::OP_FUNCTION_END;
use crate::spirv::OP_MEMBER_DECORATE;
use crate::spirv::OP_NAME;
use crate::spirv::OP_SPEC_CONSTANT;
use crate::spirv::OP_SPEC_CONSTANT_FALSE;
use crate::spirv::OP_SPEC_CONSTANT_TRUE;
use crate::spirv::OP_TYPE_ARRAY;
use crate::spirv::OP_TYPE_FLOAT;
use crate::spirv::OP_TYPE_INT;
use crate::spirv::OP_TYPE_MATRIX;
use crate::spirv::OP_TYPE_POINTER;
use crate::spirv::OP_TYPE_STRUCT;
use crate::spirv::OP_TYPE_VECTOR;
use crate::spirv::OP_VARIABLE;

verus! {

pub const STORAGE_UNIFORM_CONSTANT: u32 = 0;
pub const STORAGE_INPUT: u32 = 1;
pub const STORAGE_UNIFORM: u32 = 2;
pub const STORAGE_OUTPUT: u32 = 3;
pub const STORAGE_PUSH_CONSTANT: u32 = 9;
pub const STORAGE_STORAGE_BUFFER: u32 = 12;

/// The 8-bit signed value whose two's-complement pattern is the low byte of
/// `w`.
pub open spec fn spec_i8_of_word(w: u32) -> i8 {
    if w % 0x100 < 0x80 {
        (w % 0x100) as i8
    } else {
        ((w % 0x100) - 0x100) as i8
    }
}

/// The 16-bit signed value whose two's-complement pattern is the low half of
/// `w`.
pub open spec fn spec_i16_of_word(w: u32) -> i16 {
    if w % 0x1_0000 < 0x8000 {
        (w % 0x1_0000) as i16
    } else {
        ((w % 0x1_0000) - 0x1_0000) as i16
    }
}

/// The 32-bit signed value whose two's-complement pattern is `w`.
pub open spec fn spec_i32_of_word(w: u32) -> i32 {
    if w < 0x8000_0000 {
        w as i32
    } else {
        ((w as int) - 0x1_0000_0000) as i32
    }
}

/// The 64-bit signed value whose two's-complement pattern is `b`.
pub open spec fn spec_i64_of_bits(b: u64) -> i64 {
    if b < 0x8000_0000_0000_0000 {
        b as i64
    } else {
        ((b as int) - 0x1_0000_0000_0000_0000) as i64
    }
}

/// The 64-bit pattern held by two literal words, low word first.
pub open spec fn spec_u64_of_words(lo: u32, hi: u32) -> u64 {
    (lo + 0x1_0000_0000 * (hi as int)) as u64
}

/// The default value a constant-defining instruction declares, decoded
/// according to its declared type: boolean constants are encoded in the
/// opcode, and numeric literal words are reinterpreted by the declared
/// width and signedness.
pub open spec fn spec_constant_default(
    insts: Seq<InstructionView>,
    inst: InstructionView,
) -> Option<SpecializationConstant> {
    if inst.opcode == OP_SPEC_CONSTANT_TRUE && inst.operands.len() >= 2 {
        Some(SpecializationConstant::Bool(true))
    } else if inst.opcode == OP_SPEC_CONSTANT_FALSE && inst.operands.len() >= 2 {
        Some(SpecializationConstant::Bool(false))
    } else if inst.opcode == OP_SPEC_CONSTANT && inst.operands.len() >= 3 {
        let w = inst.operands[2];
        match spec_def(insts, inst.operands[0]) {
            Some(t) => if t.opcode == OP_TYPE_INT && t.operands.len() >= 3 {
                let width = t.operands[1];
                let signed = t.operands[2] == 1;
                if width == 8 {
                    Some(
                        if signed {
                            SpecializationConstant::I8(spec_i8_of_word(w))
                        } else {
                            SpecializationConstant::U8((w % 0x100) as u8)
                        },
                    )
                } else if width == 16 {
                    Some(
                        if signed {
                            SpecializationConstant::I16(spec_i16_of_word(w))
                        } else {
                            SpecializationConstant::U16((w % 0x1_0000) as u16)
                        },
                    )
                } else if width == 32 {
                    Some(
                        if signed {
                            SpecializationConstant::I32(spec_i32_of_word(w))
                        } else {
                            SpecializationConstant::U32(w)
                        },
                    )
                } else if width == 64 && inst.operands.len() >= 4 {
                    let b = spec_u64_of_words(w, inst.operands[3]);
                    Some(
                        if signed {
                            SpecializationConstant::I64(spec_i64_of_bits(b))
                        } else {
                            SpecializationConstant::U64(b)
                        },
                    )
                } else {
                    None
                }
            } else if t.opcode == OP_TYPE_FLOAT && t.operands.len() >= 2 {
                let width = t.operands[1];
                if width == 16 {
                    Some(SpecializationConstant::F16((w % 0x1_0000) as u16))
                } else if width == 32 {
                    Some(SpecializationConstant::F32(w))
                } else if width == 64 && inst.operands.len() >= 4 {
                    Some(SpecializationConstant::F64(spec_u64_of_words(w, inst.operands[3])))
                } else {
                    None
                }
            } else {
                None
            },
            None => None,
        }
    } else {
        None
    }
}

/// The specialization constants declared by the first `n` instructions:
/// each constant-defining instruction decorated with a specialization-
/// constant ID contributes its ID and decoded default value.
pub open spec fn spec_constants_upto(insts: Seq<InstructionView>, n: int) -> Map<
    u64,
    SpecializationConstant,
>
    decreases n,
{
    if n <= 0 {
        Map::empty()
    } else {
        let m = spec_constants_upto(insts, n - 1);
        let inst = insts[n - 1];
        if (inst.opcode == OP_SPEC_CONSTANT_TRUE || inst.opcode == OP_SPEC_CONSTANT_FALSE
            || inst.opcode == OP_SPEC_CONSTANT) && inst.operands.len() >= 2 {
            match spec_decoration_value(insts, inst.operands[1], DECORATION_SPEC_ID) {
                Some(cid) => match spec_constant_default(insts, inst) {
                    Some(v) => m.insert(cid as u64, v),
                    None => m,
                },
                None => m,
            }
        } else {
            m
        }
    }
}

/// The specialization constants a module declares, keyed by their
/// specialization-constant ID.
pub open spec fn spec_specialization_constants(insts: Seq<InstructionView>) -> Map<
    u64,
    SpecializationConstant,
> {
    spec_constants_upto(insts, insts.len() as int)
}

/// The default value a constant-defining instruction declares.
fn constant_default(spirv: &Spirv, inst: &crate::spirv::Instruction) -> (r: Option<
    SpecializationConstant,
>)
    requires
        spirv.wf(),
    ensures
        r == spec_constant_default(spirv@.instructions, inst@),
{
    if inst.opcode == OP_SPEC_CONSTANT_TRUE && inst.operands.len() >= 2 {
        Some(SpecializationConstant::Bool(true))
    } else if inst.opcode == OP_SPEC_CONSTANT_FALSE && inst.operands.len() >= 2 {
        Some(SpecializationConstant::Bool(false))
    } else if inst.opcode == OP_SPEC_CONSTANT && inst.operands.len() >= 3 {
        let w = inst.operands[2];
        match spirv.def(inst.operands[0]) {
            Some(t) => {
                if t.opcode == OP_TYPE_INT && t.operands.len() >= 3 {
                    let width = t.operands[1];
                    let signed = t.operands[2] == 1;
                    if width == 8 {
                        Some(
                            if signed {
                                SpecializationConstant::I8(i8_of_word(w))
                            } else {
                                SpecializationConstant::U8((w % 0x100) as u8)
                            },
                        )
                    } else if width == 16 {
                        Some(
                            if signed {
                                SpecializationConstant::I16(i16_of_word(w))
                            } else {
                                SpecializationConstant::U16((w % 0x1_0000) as u16)
                            },
                        )
                    } else if width == 32 {
                        Some(
                            if signed {
                                SpecializationConstant::I32(i32_of_word(w))
                            } else {
                                SpecializationConstant::U32(w)
                            },
                        )
                    } else if width == 64 && inst.operands.len() >= 4 {
                        let b = u64_of_words(w, inst.operands[3]);
                        Some(
                            if signed {
                                SpecializationConstant::I64(i64_of_bits(b))
                            } else {
                                SpecializationConstant::U64(b)
                            },
                        )
                    } else {
                        None
                    }
                } else if t.opcode == OP_TYPE_FLOAT && t.operands.len() >= 2 {
                    let width = t.operands[1];
                    if width == 16 {
                        Some(SpecializationConstant::F16((w % 0x1_0000) as u16))
                    } else if width == 32 {
                        Some(SpecializationConstant::F32(w))
                    } else if width == 64 && inst.operands.len() >= 4 {
                        Some(SpecializationConstant::F64(u64_of_words(w, inst.operands[3])))
                    } else {
                        None
                    }
                } else {
                    None
                }
            },
            None => None,
        }
    } else {
        None
    }
}

/// Scans a module for the specialization constants it declares, with their
/// default values, keyed by specialization-constant ID.
pub fn specialization_constants(spirv: &Spirv) -> (r: KeyMap<SpecializationConstant>)
    requires
        spirv.wf(),
    ensures
        r@ == spec_specialization_constants(spirv@.instructions),
        r.wf(),
{
    let ghost iv = spirv@.instructions;
    let n = spirv.len();
    let mut km: KeyMap<SpecializationConstant> = KeyMap::new();
    let mut i: usize = 0;
    while i < n
        invariant
            n == iv.len(),
            iv == spirv@.instructions,
            spirv.wf(),
            i <= n,
            km.wf(),
            km@ == spec_constants_upto(iv, i as int),
        decreases n - i,
    {
        let inst = spirv.inst_at(i);
        if (inst.opcode == OP_SPEC_CONSTANT_TRUE || inst.opcode == OP_SPEC_CONSTANT_FALSE
            || inst.opcode == OP_SPEC_CONSTANT) && inst.operands.len() >= 2 {
            match spirv.decoration_value(inst.operands[1], DECORATION_SPEC_ID) {
                Some(cid) => {
                    match constant_default(spirv, inst) {
                        Some(v) => {
                            km.insert(cid as u64, v);
                        },
                        None => {},
                    }
                },
                None => {},
            }
        }
        i = i + 1;
    }
    km
}

/// The 8-bit signed value whose pattern is the low byte of `w`.
pub fn i8_of_word(w: u32) -> (r: i8)
    ensures
        r == spec_i8_of_word(w),
{
    let b = w % 0x100;
    if b < 0x80 {
        b as i8
    } else {
        (b as i64 - 0x100) as i8
    }
}

/// The 16-bit signed value whose pattern is the low half of `w`.
pub fn i16_of_word(w: u32) -> (r: i16)
    ensures
        r == spec_i16_of_word(w),
{
    let b = w % 0x1_0000;
    if b < 0x8000 {
        b as i16
    } else {
        (b as i64 - 0x1_0000) as i16
    }
}

/// The 32-bit signed value whose pattern is `w`.
pub fn i32_of_word(w: u32) -> (r: i32)
    ensures
        r == spec_i32_of_word(w),
{
    if w < 0x8000_0000 {
        w as i32
    } else {
        (w as i64 - 0x1_0000_0000) as i32
    }
}

/// The 64-bit signed value whose pattern is `b`.
pub fn i64_of_bits(b: u64) -> (r: i64)
    ensures
        r == spec_i64_of_bits(b),
{
    if b < 0x8000_0000_0000_0000 {
        b as i64
    } else {
        (b as i128 - 0x1_0000_0000_0000_0000) as i64
    }
}

/// The 64-bit pattern held by two literal words, low word first.
pub fn u64_of_words(lo: u32, hi: u32) -> (r: u64)
    ensures
        r == spec_u64_of_words(lo, hi),
{
    (lo as u64) + 0x1_0000_0000u64 * (hi as u64)
}

/// A constant instruction whose literal words are the canonical encoding of
/// the value they decode to. Conforming modules encode sub-32-bit constants
/// sign- or zero-extended to a full word, which makes them canonical; the
/// round-trip lemmas below show that the canonical encodings and the
/// decodings here are mutually inverse.
pub open spec fn spec_canonical_constant(
    insts: Seq<InstructionView>,
    inst: InstructionView,
) -> bool {
    match spec_constant_default(insts, inst) {
        Some(v) => inst.operands.skip(2) == v.spec_literal_words(),
        None => true,
    }
}

/// Decoding the canonical word of an 8-bit signed value gives the value
/// back.
pub proof fn lemma_i8_word_roundtrip(v: i8)
    ensures
        spec_i8_of_word(crate::spec_constant::spec_word_of_i8(v)) == v,
{
}

/// Decoding the canonical word of a 16-bit signed value gives the value
/// back.
pub proof fn lemma_i16_word_roundtrip(v: i16)
    ensures
        spec_i16_of_word(crate::spec_constant::spec_word_of_i16(v)) == v,
{
}

/// Decoding the canonical word of a 32-bit signed value gives the value
/// back.
pub proof fn lemma_i32_word_roundtrip(v: i32)
    ensures
        spec_i32_of_word(crate::spec_constant::spec_word_of_i32(v)) == v,
{
}

/// Decoding the canonical two's-complement pattern of a 64-bit signed value
/// gives the value back.
pub proof fn lemma_i64_bits_roundtrip(v: i64)
    ensures
        spec_i64_of_bits(crate::spec_constant::spec_bits_of_i64(v)) == v,
{
}

/// Splitting a 64-bit pattern into two literal words and reading them back
/// gives the pattern.
pub proof fn lemma_u64_words_roundtrip(b: u64)
    ensures
        spec_u64_of_words((b % 0x1_0000_0000) as u32, (b / 0x1_0000_0000) as u32) == b,
{
}

/// The index, at or after `i`, of the instruction that opens the function
/// with result ID `fn_id`.
pub open spec fn spec_function_start(insts: Seq<InstructionView>, fn_id: u32, i: int) -> Option<
    int,
>
    decreases insts.len() - i,
{
    if i < 0 || i >= insts.len() {
        None
    } else if insts[i].opcode == OP_FUNCTION && insts[i].operands.len() >= 2 && insts[i].operands[1]
        == fn_id {
        Some(i)
    } else {
        spec_function_start(insts, fn_id, i + 1)
    }
}

/// The index, at or after `i`, of the next function-end instruction, or the
/// end of the stream.
pub open spec fn spec_function_end(insts: Seq<InstructionView>, i: int) -> int
    decreases insts.len() - i,
{
    if i < 0 || i >= insts.len() {
        insts.len() as int
    } else if insts[i].opcode == OP_FUNCTION_END {
        i
    } else {
        spec_function_end(insts, i + 1)
    }
}

/// The index range `[start, end)` of the body of the function with result
/// ID `fn_id`, if the function exists.
pub open spec fn spec_function_range(insts: Seq<InstructionView>, fn_id: u32) -> Option<
    (int, int),
> {
    match spec_function_start(insts, fn_id, 0) {
        Some(s) => Some((s, spec_function_end(insts, s))),
        None => None,
    }
}

/// The index range of the function with result ID `fn_id`.
pub fn function_range(spirv: &Spirv, fn_id: u32) -> (r: Option<(usize, usize)>)
    ensures
        match r {
            Some((s, e)) => spec_function_range(spirv@.instructions, fn_id) == Some(
                (s as int, e as int),
            ) && s <= e <= spirv@.instructions.len(),
            None => spec_function_range(spirv@.instructions, fn_id) is None,
        },
{
    let ghost iv = spirv@.instructions;
    let n = spirv.len();
    let mut i: usize = 0;
    let mut start: Option<usize> = None;
    while i < n && start.is_none()
        invariant
            n == iv.len(),
            iv == spirv@.instructions,
            i <= n,
            match start {
                None => spec_function_start(iv, fn_id, 0) == spec_function_start(
                    iv,
                    fn_id,
                    i as int,
                ),
                Some(s) => spec_function_start(iv, fn_id, 0) == Some(s as int) && s < n,
            },
        decreases n - i, (if start is None { 1int } else { 0int }),
    {
        let inst = spirv.inst_at(i);
        if inst.opcode == OP_FUNCTION && inst.operands.len() >= 2 && inst.operands[1] == fn_id {
            start = Some(i);
        } else {
            i = i + 1;
        }
    }
    match start {
        None => {
            proof {
                assert(spec_function_start(iv, fn_id, n as int) is None);
            }
            None
        },
        Some(s) => {
            let mut e: usize = s;
            let mut done = false;
            while e < n && !done
                invariant
                    n == iv.len(),
                    iv == spirv@.instructions,
                    s <= e <= n,
                    !done ==> spec_function_end(iv, s as int) == spec_function_end(iv, e as int),
                    done ==> spec_function_end(iv, s as int) == e as int && e < n,
                decreases n - e, (if done { 0int } else { 1int }),
            {
                let inst = spirv.inst_at(e);
                if inst.opcode == OP_FUNCTION_END {
                    done = true;
                } else {
                    e = e + 1;
                }
            }
            proof {
                if !done {
                    assert(spec_function_end(iv, n as int) == n as int);
                }
            }
            Some((s, e))
        },
    }
}

/// The function IDs called from the instructions in `[s, e)`.
pub open spec fn spec_callees_from(insts: Seq<InstructionView>, s: int, e: int) -> Seq<u32>
    decreases e - s,
{
    if s < 0 || s >= e || e > insts.len() {
        Seq::empty()
    } else {
        (if insts[s].opcode == OP_FUNCTION_CALL && insts[s].operands.len() >= 3 {
            seq![insts[s].operands[2]]
        } else {
            Seq::empty()
        }) + spec_callees_from(insts, s + 1, e)
    }
}

/// The function IDs called from the body of function `fn_id`.
pub open spec fn spec_callees(insts: Seq<InstructionView>, fn_id: u32) -> Seq<u32> {
    match spec_function_range(insts, fn_id) {
        Some((s, e)) => spec_callees_from(insts, s, e),
        None => Seq::empty(),
    }
}

/// The function IDs called from the body of function `fn_id`.
pub fn callees(spirv: &Spirv, fn_id: u32) -> (r: Vec<u32>)
    ensures
        r@ == spec_callees(spirv@.instructions, fn_id),
{
    let ghost iv = spirv@.instructions;
    let mut r: Vec<u32> = Vec::new();
    match function_range(spirv, fn_id) {
        None => {},
        Some((s, e)) => {
            let mut i: usize = s;
            while i < e
                invariant
                    iv == spirv@.instructions,
                    s <= i <= e <= iv.len(),
                    spec_callees_from(iv, s as int, e as int) == r@ + spec_callees_from(
                        iv,
                        i as int,
                        e as int,
                    ),
                decreases e - i,
            {
                let inst = spirv.inst_at(i);
                let ghost pre = r@;
                if inst.opcode == OP_FUNCTION_CALL && inst.operands.len() >= 3 {
                    r.push(inst.operands[2]);
                }
                proof {
                    assert(spec_callees_from(iv, s as int, e as int) =~= r@ + spec_callees_from(
                        iv,
                        i as int + 1,
                        e as int,
                    ));
                }
                i = i + 1;
            }
            proof {
                assert(spec_callees_from(iv, e as int, e as int) =~= Seq::<u32>::empty());
                assert(r@ =~= spec_callees_from(iv, s as int, e as int));
            }
        },
    }
    r
}

/// Worklist exploration of the call graph: visits each pending function,
/// queueing its callees, until the worklist empties or the step budget runs
/// out. The budget of one step per instruction always suffices for modules
/// whose functions do not share bodies, since each visited function queues
/// each of its call instructions once.
pub open spec fn spec_reached(
    insts: Seq<InstructionView>,
    pending: Seq<u32>,
    visited: Seq<u32>,
    fuel: nat,
) -> Seq<u32>
    decreases fuel,
{
    if fuel == 0 || pending.len() == 0 {
        visited
    } else {
        let f = pending[0];
        if visited.contains(f) {
            spec_reached(insts, pending.drop_first(), visited, (fuel - 1) as nat)
        } else {
            spec_reached(
                insts,
                pending.drop_first() + spec_callees(insts, f),
                visited.push(f),
                (fuel - 1) as nat,
            )
        }
    }
}

/// The functions an entry point at function `fn_id` can reach through
/// calls.
pub open spec fn spec_entry_functions(insts: Seq<InstructionView>, fn_id: u32) -> Seq<u32> {
    spec_reached(insts, seq![fn_id], Seq::empty(), insts.len() as nat)
}

/// The functions an entry point at function `fn_id` can reach through
/// calls.
pub fn reached_functions(spirv: &Spirv, fn_id: u32) -> (r: Vec<u32>)
    ensures
        r@ == spec_entry_functions(spirv@.instructions, fn_id),
{
    let ghost iv = spirv@.instructions;
    let mut pending: Vec<u32> = Vec::new();
    pending.push(fn_id);
    let mut visited: Vec<u32> = Vec::new();
    let mut fuel: usize = spirv.len();
    proof {
        assert(pending@ =~= seq![fn_id]);
        assert(visited@ =~= Seq::<u32>::empty());
    }
    while fuel > 0 && pending.len() > 0
        invariant
            iv == spirv@.instructions,
            spec_reached(iv, pending@, visited@, fuel as nat) == spec_entry_functions(iv, fn_id),
        decreases fuel,
    {
        let f = pending.remove(0);
        let mut contains = false;
        let vn = visited.len();
        let mut vi: usize = 0;
        while vi < vn
            invariant
                vn == visited@.len(),
                vi <= vn,
                contains == exists|j: int| 0 <= j < vi && visited@[j] == f,
            decreases vn - vi,
        {
            if visited[vi] == f {
                contains = true;
            }
            vi = vi + 1;
        }
        proof {
            assert(contains == visited@.contains(f));
        }
        if !contains {
            let cs = callees(spirv, f);
            let cn = cs.len();
            let ghost pend0 = pending@;
            let mut ci: usize = 0;
            while ci < cn
                invariant
                    cn == cs@.len(),
                    ci <= cn,
                    pending@ == pend0 + cs@.subrange(0, ci as int),
                decreases cn - ci,
            {
                pending.push(cs[ci]);
                proof {
                    assert(pending@ =~= pend0 + cs@.subrange(0, ci as int + 1));
                }
                ci = ci + 1;
            }
            proof {
                assert(pending@ =~= pend0 + cs@);
            }
            visited.push(f);
        }
        fuel = fuel - 1;
    }
    proof {
        if pending@.len() > 0 {
            assert(fuel == 0);
        }
    }
    visited
}

/// The instruction indexes belonging to the body of function `f`.
pub open spec fn spec_fn_indexes(insts: Seq<InstructionView>, f: u32) -> Seq<int> {
    match spec_function_range(insts, f) {
        Some((s, e)) => Seq::new((e - s) as nat, |j: int| s + j),
        None => Seq::empty(),
    }
}

/// The instruction indexes belonging to the bodies of the given functions,
/// in the given order.
pub open spec fn spec_entry_indexes(insts: Seq<InstructionView>, funcs: Seq<u32>) -> Seq<int>
    decreases funcs.len(),
{
    if funcs.len() == 0 {
        Seq::empty()
    } else {
        spec_fn_indexes(insts, funcs[0]) + spec_entry_indexes(insts, funcs.drop_first())
    }
}

/// The instruction indexes belonging to the bodies of the given functions.
pub fn entry_indexes(spirv: &Spirv, funcs: &Vec<u32>) -> (r: Vec<usize>)
    ensures
        r@.map_values(|u: usize| u as int) == spec_entry_indexes(spirv@.instructions, funcs@),
        forall|j: int| 0 <= j < r@.len() ==> #[trigger] r@[j] < spirv@.instructions.len(),
{
    let ghost iv = spirv@.instructions;
    let mut r: Vec<usize> = Vec::new();
    let fn_count = funcs.len();
    let mut fi: usize = 0;
    proof {
        assert(funcs@.skip(0) =~= funcs@);
        assert(r@.map_values(|u: usize| u as int) =~= Seq::<int>::empty());
    }
    while fi < fn_count
        invariant
            iv == spirv@.instructions,
            fn_count == funcs@.len(),
            fi <= fn_count,
            spec_entry_indexes(iv, funcs@) == r@.map_values(|u: usize| u as int)
                + spec_entry_indexes(iv, funcs@.skip(fi as int)),
            forall|j: int| 0 <= j < r@.len() ==> #[trigger] r@[j] < iv.len(),
        decreases fn_count - fi,
    {
        proof {
            assert(funcs@.skip(fi as int)[0] == funcs@[fi as int]);
            assert(funcs@.skip(fi as int).drop_first() =~= funcs@.skip(fi as int + 1));
        }
        let f = funcs[fi];
        let ghost pre = r@.map_values(|u: usize| u as int);
        match function_range(spirv, f) {
            None => {
                proof {
                    assert(spec_fn_indexes(iv, f) =~= Seq::<int>::empty());
                    assert(pre + spec_fn_indexes(iv, f) =~= pre);
                }
            },
            Some((s, e)) => {
                let mut k: usize = s;
                while k < e
                    invariant
                        iv == spirv@.instructions,
                        s <= k <= e <= iv.len(),
                        spec_fn_indexes(iv, f) == Seq::new((e - s) as nat, |j: int| s + j),
                        r@.map_values(|u: usize| u as int) == pre + Seq::new(
                            (k - s) as nat,
                            |j: int| s + j,
                        ),
                        forall|j: int| 0 <= j < r@.len() ==> #[trigger] r@[j] < iv.len(),
                    decreases e - k,
                {
                    let ghost rpre = r@;
                    r.push(k);
                    proof {
                        assert(r@ =~= rpre.push(k));
                        assert(r@.map_values(|u: usize| u as int) =~= rpre.map_values(
                            |u: usize| u as int,
                        ).push(k as int));
                        assert(pre + Seq::new((k + 1 - s) as nat, |j: int| s + j) =~= (pre
                            + Seq::new((k - s) as nat, |j: int| s + j)).push(k as int));
                    }
                    k = k + 1;
                }
                proof {
                    assert(r@.map_values(|u: usize| u as int) =~= pre + spec_fn_indexes(iv, f));
                }
            },
        }
        fi = fi + 1;
    }
    proof {
        assert(funcs@.skip(fn_count as int) =~= Seq::<u32>::empty());
        assert(r@.map_values(|u: usize| u as int) =~= spec_entry_indexes(iv, funcs@));
    }
    r
}

/// Whether any instruction at the given indexes mentions `v` among its
/// operands.
pub open spec fn spec_var_used(insts: Seq<InstructionView>, idxs: Seq<int>, v: u32) -> bool {
    exists|j: int| 0 <= j < idxs.len() && #[trigger] insts[idxs[j]].operands.contains(v)
}

/// Whether any instruction at the given indexes mentions `v` among its
/// operands.
pub fn var_used(spirv: &Spirv, idxs: &Vec<usize>, v: u32) -> (r: bool)
    requires
        forall|j: int| 0 <= j < idxs@.len() ==> #[trigger] idxs@[j] < spirv@.instructions.len(),
    ensures
        r == spec_var_used(
            spirv@.instructions,
            idxs@.map_values(|u: usize| u as int),
            v,
        ),
{
    let ghost iv = spirv@.instructions;
    let ghost gidx = idxs@.map_values(|u: usize| u as int);
    let n = idxs.len();
    let mut j: usize = 0;
    while j < n
        invariant
            iv == spirv@.instructions,
            n == idxs@.len(),
            gidx == idxs@.map_values(|u: usize| u as int),
            j <= n,
            forall|t: int| 0 <= t < idxs@.len() ==> #[trigger] idxs@[t] < iv.len(),
            forall|t: int| 0 <= t < j ==> !(#[trigger] iv[gidx[t]].operands.contains(v)),
        decreases n - j,
    {
        proof {
            assert(gidx[j as int] == idxs@[j as int] as int);
        }
        let inst = spirv.inst_at(idxs[j]);
        proof {
            assert(inst@ == iv[gidx[j as int]]);
        }
        let m = inst.operands.len();
        let mut k: usize = 0;
        while k < m
            invariant
                m == inst.operands@.len(),
                k <= m,
                iv == spirv@.instructions,
                n == idxs@.len(),
                gidx == idxs@.map_values(|u: usize| u as int),
                j < n,
                0 <= gidx[j as int] < iv.len(),
                inst@ == iv[gidx[j as int]],
                forall|t: int| 0 <= t < k ==> inst.operands@[t] != v,
            decreases m - k,
        {
            if inst.operands[k] == v {
                proof {
                    assert(inst@.operands[k as int] == v);
                    assert(iv[gidx[j as int]].operands.contains(v));
                    assert(spec_var_used(iv, gidx, v));
                }
                return true;
            }
            k = k + 1;
        }
        proof {
            assert(!iv[gidx[j as int]].operands.contains(v)) by {
                if iv[gidx[j as int]].operands.contains(v) {
                    let t = choose|t: int|
                        0 <= t < iv[gidx[j as int]].operands.len() && iv[gidx[
                            j as int
                        ]].operands[t] == v;
                    assert(inst.operands@[t] == v);
                }
            }
        }
        j = j + 1;
    }
    false
}

/// The pointee type of a pointer type.
pub open spec fn spec_pointee(insts: Seq<InstructionView>, tid: u32) -> Option<u32> {
    match spec_def(insts, tid) {
        Some(d) => if d.opcode == OP_TYPE_POINTER && d.operands.len() >= 3 {
            Some(d.operands[2])
        } else {
            None
        },
        None => None,
    }
}

/// The pointee type of a pointer type.
pub fn pointee(spirv: &Spirv, tid: u32) -> (r: Option<u32>)
    requires
        spirv.wf(),
    ensures
        r == spec_pointee(spirv@.instructions, tid),
{
    match spirv.def(tid) {
        Some(d) => {
            if d.opcode == OP_TYPE_POINTER && d.operands.len() >= 3 {
                Some(d.operands[2])
            } else {
                None
            }
        },
        None => None,
    }
}

/// The value of a 32-bit integer constant.
pub open spec fn spec_const_u32(insts: Seq<InstructionView>, id: u32) -> Option<u32> {
    match spec_def(insts, id) {
        Some(d) => if d.opcode == OP_CONSTANT && d.operands.len() >= 3 {
            Some(d.operands[2])
        } else {
            None
        },
        None => None,
    }
}

/// The value of a 32-bit integer constant.
pub fn const_u32(spirv: &Spirv, id: u32) -> (r: Option<u32>)
    requires
        spirv.wf(),
    ensures
        r == spec_const_u32(spirv@.instructions, id),
{
    match spirv.def(id) {
        Some(d) => {
            if d.opcode == OP_CONSTANT && d.operands.len() >= 3 {
                Some(d.operands[2])
            } else {
                None
            }
        },
        None => None,
    }
}

/// The debug name attached to `id`, if any: the string operand of the first
/// name instruction targeting it.
pub open spec fn spec_name_from(insts: Seq<InstructionView>, id: u32, i: int) -> Option<Seq<u8>>
    decreases insts.len() - i,
{
    if i < 0 || i >= insts.len() {
        None
    } else if insts[i].opcode == OP_NAME && insts[i].operands.len() >= 1 && insts[i].operands[0]
        == id {
        match spec_take_string(insts[i].operands, 1) {
            Some((bytes, _)) => Some(bytes),
            None => None,
        }
    } else {
        spec_name_from(insts, id, i + 1)
    }
}

/// The debug name attached to `id`, if any.
pub open spec fn spec_name_of(insts: Seq<InstructionView>, id: u32) -> Option<Seq<u8>> {
    spec_name_from(insts, id, 0)
}

/// The debug name attached to `id`, if any.
pub fn name_of(spirv: &Spirv, id: u32) -> (r: Option<Vec<u8>>)
    ensures
        match r {
            Some(bytes) => spec_name_of(spirv@.instructions, id) == Some(bytes@),
            None => spec_name_of(spirv@.instructions, id) is None,
        },
{
    let ghost iv = spirv@.instructions;
    let n = spirv.len();
    let mut i: usize = 0;
    while i < n
        invariant
            n == iv.len(),
            iv == spirv@.instructions,
            i <= n,
            spec_name_of(iv, id) == spec_name_from(iv, id, i as int),
        decreases n - i,
    {
        let inst = spirv.inst_at(i);
        if inst.opcode == OP_NAME && inst.operands.len() >= 1 && inst.operands[0] == id {
            match take_string(&inst.operands, 1) {
                Some((bytes, _)) => {
                    return Some(bytes);
                },
                None => {
                    return None;
                },
            }
        }
        i = i + 1;
    }
    None
}

/// The scalar interpretation of a type: its numeric kind and whether it is
/// 64 bits wide.
pub open spec fn spec_scalar_type(insts: Seq<InstructionView>, tid: u32) -> Option<
    (NumericType, bool),
> {
    match spec_def(insts, tid) {
        Some(d) => if d.opcode == OP_TYPE_FLOAT && d.operands.len() >= 2 {
            Some((NumericType::Float, d.operands[1] == 64))
        } else if d.opcode == OP_TYPE_INT && d.operands.len() >= 3 {
            Some(
                (
                    if d.operands[2] == 1 {
                        NumericType::Int
                    } else {
                        NumericType::Uint
                    },
                    d.operands[1] == 64,
                ),
            )
        } else {
            None
        },
        None => None,
    }
}

/// The scalar kind and component count of a type that is a scalar or a
/// vector of scalars.
pub open spec fn spec_vector_type(insts: Seq<InstructionView>, tid: u32) -> Option<
    (NumericType, u32, bool),
> {
    match spec_def(insts, tid) {
        Some(d) => if d.opcode == OP_TYPE_VECTOR && d.operands.len() >= 3 {
            match spec_scalar_type(insts, d.operands[1]) {
                Some((num, is64)) => Some((num, d.operands[2], is64)),
                None => None,
            }
        } else {
            match spec_scalar_type(insts, tid) {
                Some((num, is64)) => Some((num, 1, is64)),
                None => None,
            }
        },
        None => None,
    }
}

/// The interface type descriptor of a variable's pointee type: the base
/// numeric type and vector width, with the element count taken from an
/// array length or matrix column count.
pub open spec fn spec_interface_ty(insts: Seq<InstructionView>, tid: u32) -> Option<
    ShaderInterfaceEntryType,
> {
    match spec_def(insts, tid) {
        Some(d) => if d.opcode == OP_TYPE_ARRAY && d.operands.len() >= 3 {
            match spec_const_u32(insts, d.operands[2]) {
                Some(n) => match spec_vector_type(insts, d.operands[1]) {
                    Some((num, comps, is64)) => Some(
                        ShaderInterfaceEntryType {
                            base_type: num,
                            num_components: comps,
                            num_elements: n,
                            is_64bit: is64,
                        },
                    ),
                    None => None,
                },
                None => None,
            }
        } else if d.opcode == OP_TYPE_MATRIX && d.operands.len() >= 3 {
            match spec_vector_type(insts, d.operands[1]) {
                Some((num, comps, is64)) => Some(
                    ShaderInterfaceEntryType {
                        base_type: num,
                        num_components: comps,
                        num_elements: d.operands[2],
                        is_64bit: is64,
                    },
                ),
                None => None,
            }
        } else {
            match spec_vector_type(insts, tid) {
                Some((num, comps, is64)) => Some(
                    ShaderInterfaceEntryType {
                        base_type: num,
                        num_components: comps,
                        num_elements: 1,
                        is_64bit: is64,
                    },
                ),
                None => None,
            }
        },
        None => None,
    }
}

/// The interface type descriptor of a variable's pointee type.
pub fn interface_ty(spirv: &Spirv, tid: u32) -> (r: Option<ShaderInterfaceEntryType>)
    requires
        spirv.wf(),
    ensures
        r == spec_interface_ty(spirv@.instructions, tid),
{
    let vector_of = |vid: u32| -> (rr: Option<(NumericType, u32, bool)>)
        requires
            spirv.wf(),
        ensures
            rr == spec_vector_type(spirv@.instructions, vid),
        {
            match spirv.def(vid) {
                Some(d) => {
                    if d.opcode == OP_TYPE_VECTOR && d.operands.len() >= 3 {
                        match scalar_type(spirv, d.operands[1]) {
                            Some((num, is64)) => Some((num, d.operands[2], is64)),
                            None => None,
                        }
                    } else {
                        match scalar_type(spirv, vid) {
                            Some((num, is64)) => Some((num, 1, is64)),
                            None => None,
                        }
                    }
                },
                None => None,
            }
        };
    match spirv.def(tid) {
        Some(d) => {
            if d.opcode == OP_TYPE_ARRAY && d.operands.len() >= 3 {
                match const_u32(spirv, d.operands[2]) {
                    Some(n) => match vector_of(d.operands[1]) {
                        Some((num, comps, is64)) => Some(
                            ShaderInterfaceEntryType {
                                base_type: num,
                                num_components: comps,
                                num_elements: n,
                                is_64bit: is64,
                            },
                        ),
                        None => None,
                    },
                    None => None,
                }
            } else if d.opcode == OP_TYPE_MATRIX && d.operands.len() >= 3 {
                match vector_of(d.operands[1]) {
                    Some((num, comps, is64)) => Some(
                        ShaderInterfaceEntryType {
                            base_type: num,
                            num_components: comps,
                            num_elements: d.operands[2],
                            is_64bit: is64,
                        },
                    ),
                    None => None,
                }
            } else {
                match vector_of(tid) {
                    Some((num, comps, is64)) => Some(
                        ShaderInterfaceEntryType {
                            base_type: num,
                            num_components: comps,
                            num_elements: 1,
                            is_64bit: is64,
                        },
                    ),
                    None => None,
                }
            }
        },
        None => None,
    }
}

/// The scalar interpretation of a type.
fn scalar_type(spirv: &Spirv, tid: u32) -> (r: Option<(NumericType, bool)>)
    requires
        spirv.wf(),
    ensures
        r == spec_scalar_type(spirv@.instructions, tid),
{
    match spirv.def(tid) {
        Some(d) => {
            if d.opcode == OP_TYPE_FLOAT && d.operands.len() >= 2 {
                Some((NumericType::Float, d.operands[1] == 64))
            } else if d.opcode == OP_TYPE_INT && d.operands.len() >= 3 {
                Some(
                    (
                        if d.operands[2] == 1 {
                            NumericType::Int
                        } else {
                            NumericType::Uint
                        },
                        d.operands[1] == 64,
                    ),
                )
            } else {
                None
            }
        },
        None => None,
    }
}

/// Whether any member of struct `sid` is declared as a built-in variable,
/// which marks the whole block as built-in.
pub open spec fn spec_struct_member_builtin_from(
    insts: Seq<InstructionView>,
    sid: u32,
    i: int,
) -> bool
    decreases insts.len() - i,
{
    if i < 0 || i >= insts.len() {
        false
    } else if insts[i].opcode == OP_MEMBER_DECORATE && insts[i].operands.len() >= 3
        && insts[i].operands[0] == sid && insts[i].operands[2] == DECORATION_BUILT_IN {
        true
    } else {
        spec_struct_member_builtin_from(insts, sid, i + 1)
    }
}

/// Whether any member of struct `sid` is declared as a built-in variable.
pub open spec fn spec_struct_member_builtin(insts: Seq<InstructionView>, sid: u32) -> bool {
    spec_struct_member_builtin_from(insts, sid, 0)
}

/// The value of an optional decoration, defaulting to zero.
pub open spec fn spec_or_zero(x: Option<u32>) -> u32 {
    match x {
        Some(v) => v,
        None => 0,
    }
}

/// Whether a type is a struct with a built-in member, which marks a whole
/// interface block as built-in.
pub open spec fn spec_is_builtin_block(insts: Seq<InstructionView>, tid: u32) -> bool {
    match spec_def(insts, tid) {
        Some(d) => d.opcode == OP_TYPE_STRUCT && spec_struct_member_builtin(insts, tid),
        None => false,
    }
}

/// The interface element contributed by interface variable `id` in the
/// given storage class: its location, sub-location index, component, debug
/// name and type descriptor. Variables of other storage classes, built-in
/// variables and blocks, variables without a location, and variables whose
/// location range leaves `u32` contribute nothing.
pub open spec fn spec_interface_entry(insts: Seq<InstructionView>, id: u32, storage: u32) -> Option<
    ShaderInterfaceEntryView,
> {
    match spec_def(insts, id) {
        Some(d) => if d.opcode == OP_VARIABLE && d.operands.len() >= 3 && d.operands[2] == storage {
            if spec_has_decoration(insts, id, DECORATION_BUILT_IN) {
                None
            } else {
                match spec_pointee(insts, d.operands[0]) {
                    Some(ptid) => if spec_is_builtin_block(insts, ptid) {
                        None
                    } else {
                        match spec_decoration_value(insts, id, DECORATION_LOCATION) {
                            Some(location) => match spec_interface_ty(insts, ptid) {
                                Some(ty) => if location + ty.num_elements <= u32::MAX {
                                    Some(
                                        ShaderInterfaceEntryView {
                                            location,
                                            index: spec_or_zero(
                                                spec_decoration_value(insts, id, DECORATION_INDEX),
                                            ),
                                            component: spec_or_zero(
                                                spec_decoration_value(
                                                    insts,
                                                    id,
                                                    DECORATION_COMPONENT,
                                                ),
                                            ),
                                            name: spec_name_of(insts, id),
                                            ty,
                                        },
                                    )
                                } else {
                                    None
                                },
                                None => None,
                            },
                            None => None,
                        }
                    },
                    None => None,
                }
            }
        } else {
            None
        },
        None => None,
    }
}

/// The interface element contributed by interface variable `id`.
pub fn interface_entry(spirv: &Spirv, id: u32, storage: u32) -> (r: Option<ShaderInterfaceEntry>)
    requires
        spirv.wf(),
    ensures
        match r {
            Some(e) => spec_interface_entry(spirv@.instructions, id, storage) == Some(e@)
                && e.location + e.ty.num_elements <= u32::MAX,
            None => spec_interface_entry(spirv@.instructions, id, storage) is None,
        },
{
    match spirv.def(id) {
        Some(d) => {
            if d.opcode == OP_VARIABLE && d.operands.len() >= 3 && d.operands[2] == storage {
                if spirv.has_decoration(id, DECORATION_BUILT_IN) {
                    return None;
                }
                let d0 = d.operands[0];
                match pointee(spirv, d0) {
                    Some(ptid) => {
                        let builtin_block = match spirv.def(ptid) {
                            Some(pd) => pd.opcode == OP_TYPE_STRUCT && struct_member_builtin(
                                spirv,
                                ptid,
                            ),
                            None => false,
                        };
                        if builtin_block {
                            return None;
                        }
                        match spirv.decoration_value(id, DECORATION_LOCATION) {
                            Some(location) => {
                                match interface_ty(spirv, ptid) {
                                    Some(ty) => {
                                        if location as u64 + ty.num_elements as u64
                                            <= u32::MAX as u64 {
                                            let index = match spirv.decoration_value(
                                                id,
                                                DECORATION_INDEX,
                                            ) {
                                                Some(v) => v,
                                                None => 0,
                                            };
                                            let component = match spirv.decoration_value(
                                                id,
                                                DECORATION_COMPONENT,
                                            ) {
                                                Some(v) => v,
                                                None => 0,
                                            };
                                            let name = name_of(spirv, id);
                                            Some(
                                                ShaderInterfaceEntry {
                                                    location,
                                                    index,
                                                    component,
                                                    name,
                                                    ty,
                                                },
                                            )
                                        } else {
                                            None
                                        }
                                    },
                                    None => None,
                                }
                            },
                            None => None,
                        }
                    },
                    None => None,
                }
            } else {
                None
            }
        },
        None => None,
    }
}

/// The interface elements contributed by the interface IDs in `ops` from
/// index `k` on, keeping their order.
pub open spec fn spec_interface_entries(
    insts: Seq<InstructionView>,
    ops: Seq<u32>,
    k: int,
    storage: u32,
) -> Seq<ShaderInterfaceEntryView>
    decreases ops.len() - k,
{
    if k < 0 || k >= ops.len() {
        Seq::empty()
    } else {
        (match spec_interface_entry(insts, ops[k], storage) {
            Some(e) => seq![e],
            None => Seq::<ShaderInterfaceEntryView>::empty(),
        }) + spec_interface_entries(insts, ops, k + 1, storage)
    }
}

/// Builds the input or output interface of an entry point from its
/// interface ID list, which starts at operand `start`.
pub fn build_interface(spirv: &Spirv, ops: &Vec<u32>, start: usize, storage: u32) -> (r:
    ShaderInterface)
    requires
        spirv.wf(),
    ensures
        r@ == spec_interface_entries(spirv@.instructions, ops@, start as int, storage),
        r.locations_in_range(),
{
    let ghost iv = spirv@.instructions;
    let mut elements: Vec<ShaderInterfaceEntry> = Vec::new();
    let n = ops.len();
    let mut k: usize = start;
    proof {
        assert(elements@.map_values(|e: ShaderInterfaceEntry| e@) =~= Seq::<
            ShaderInterfaceEntryView,
        >::empty());
    }
    while k < n
        invariant
            iv == spirv@.instructions,
            spirv.wf(),
            n == ops@.len(),
            start <= k <= n || (start > n && k == start),
            k >= start,
            spec_interface_entries(iv, ops@, start as int, storage) == elements@.map_values(
                |e: ShaderInterfaceEntry| e@,
            ) + spec_interface_entries(iv, ops@, k as int, storage),
            forall|i: int|
                0 <= i < elements@.len() ==> (#[trigger] elements@[i]).location
                    + elements@[i].ty.num_elements <= u32::MAX,
        decreases n - k,
    {
        let ghost pre = elements@.map_values(|e: ShaderInterfaceEntry| e@);
        match interface_entry(spirv, ops[k], storage) {
            Some(e) => {
                elements.push(e);
                proof {
                    assert(elements@.map_values(|e: ShaderInterfaceEntry| e@) =~= pre.push(
                        elements@.last()@,
                    ));
                    assert(pre + (seq![elements@.last()@] + spec_interface_entries(
                        iv,
                        ops@,
                        k as int + 1,
                        storage,
                    )) =~= pre.push(elements@.last()@) + spec_interface_entries(
                        iv,
                        ops@,
                        k as int + 1,
                        storage,
                    ));
                }
            },
            None => {
                proof {
                    assert(pre + (Seq::<ShaderInterfaceEntryView>::empty()
                        + spec_interface_entries(iv, ops@, k as int + 1, storage)) =~= pre
                        + spec_interface_entries(iv, ops@, k as int + 1, storage));
                }
            },
        }
        k = k + 1;
    }
    ShaderInterface::new_unchecked(elements)
}

/// The byte size of a type laid out in a push-constant block: scalars take
/// their width in bytes, vectors and matrices multiply it out, arrays use
/// their declared stride (or a tight stride), and a struct ends where its
/// furthest member ends. The step budget bounds recursion through the type
/// graph, whose definitions strictly precede their uses in conforming
/// modules.
pub open spec fn spec_type_size(insts: Seq<InstructionView>, tid: u32, fuel: nat) -> Option<u32>
    decreases fuel, 0int,
{
    if fuel == 0 {
        None
    } else {
        match spec_def(insts, tid) {
            Some(d) => if (d.opcode == OP_TYPE_INT || d.opcode == OP_TYPE_FLOAT)
                && d.operands.len() >= 2 {
                Some((d.operands[1] / 8) as u32)
            } else if (d.opcode == OP_TYPE_VECTOR || d.opcode == OP_TYPE_MATRIX)
                && d.operands.len() >= 3 {
                match spec_type_size(insts, d.operands[1], (fuel - 1) as nat) {
                    Some(es) => if es * d.operands[2] <= u32::MAX {
                        Some((es * d.operands[2]) as u32)
                    } else {
                        None
                    },
                    None => None,
                }
            } else if d.opcode == OP_TYPE_ARRAY && d.operands.len() >= 3 {
                match spec_const_u32(insts, d.operands[2]) {
                    Some(n) => {
                        let stride = match spec_decoration_value(
                            insts,
                            tid,
                            DECORATION_ARRAY_STRIDE,
                        ) {
                            Some(s) => Some(s),
                            None => spec_type_size(insts, d.operands[1], (fuel - 1) as nat),
                        };
                        match stride {
                            Some(st) => if st * n <= u32::MAX {
                                Some((st * n) as u32)
                            } else {
                                None
                            },
                            None => None,
                        }
                    },
                    None => None,
                }
            } else if d.opcode == OP_TYPE_STRUCT {
                match spec_struct_extent(insts, tid, d.operands, 1, (fuel - 1) as nat) {
                    Some((lo, hi)) => if lo <= hi {
                        Some(hi)
                    } else {
                        None
                    },
                    None => None,
                }
            } else {
                None
            },
            None => None,
        }
    }
}

/// The smallest member offset and largest member end of a struct, over the
/// member types in `ops` from index `k` on. Every member must carry an
/// offset and have a known size. The identity for no members is an empty
/// range.
pub open spec fn spec_struct_extent(
    insts: Seq<InstructionView>,
    sid: u32,
    ops: Seq<u32>,
    k: int,
    fuel: nat,
) -> Option<(u32, u32)>
    decreases fuel, ops.len() - k + 1,
{
    if k < 1 || k >= ops.len() {
        Some((0xffff_ffffu32, 0u32))
    } else {
        match spec_member_decoration_value(insts, sid, (k - 1) as u32, DECORATION_OFFSET) {
            Some(off) => match spec_type_size(insts, ops[k], fuel) {
                Some(sz) => if off + sz <= u32::MAX {
                    match spec_struct_extent(insts, sid, ops, k + 1, fuel) {
                        Some((lo, hi)) => Some(
                            (
                                if off < lo {
                                    off
                                } else {
                                    lo
                                },
                                if off + sz > hi {
                                    (off + sz) as u32
                                } else {
                                    hi
                                },
                            ),
                        ),
                        None => None,
                    }
                } else {
                    None
                },
                None => None,
            },
            None => None,
        }
    }
}

/// The byte size of a type laid out in a push-constant block.
pub fn type_size(spirv: &Spirv, tid: u32, fuel: usize) -> (r: Option<u32>)
    requires
        spirv.wf(),
    ensures
        r == spec_type_size(spirv@.instructions, tid, fuel as nat),
    decreases fuel, 0int,
{
    if fuel == 0 {
        return None;
    }
    match spirv.def(tid) {
        Some(d) => {
            if (d.opcode == OP_TYPE_INT || d.opcode == OP_TYPE_FLOAT) && d.operands.len() >= 2 {
                Some(d.operands[1] / 8)
            } else if (d.opcode == OP_TYPE_VECTOR || d.opcode == OP_TYPE_MATRIX)
                && d.operands.len() >= 3 {
                let e1 = d.operands[1];
                let count = d.operands[2];
                match type_size(spirv, e1, fuel - 1) {
                    Some(es) => {
                        let e64 = es as u64;
                        let c64 = count as u64;
                        proof {
                            assert(e64 * c64 <= 0xffff_ffffu64 * 0xffff_ffffu64)
                                by (nonlinear_arith)
                                requires
                                    e64 <= 0xffff_ffffu64,
                                    c64 <= 0xffff_ffffu64,
                            ;
                        }
                        if e64 * c64 <= u32::MAX as u64 {
                            Some((e64 * c64) as u32)
                        } else {
                            None
                        }
                    },
                    None => None,
                }
            } else if d.opcode == OP_TYPE_ARRAY && d.operands.len() >= 3 {
                let e1 = d.operands[1];
                let lenid = d.operands[2];
                match const_u32(spirv, lenid) {
                    Some(n) => {
                        let stride = match spirv.decoration_value(tid, DECORATION_ARRAY_STRIDE) {
                            Some(s) => Some(s),
                            None => type_size(spirv, e1, fuel - 1),
                        };
                        match stride {
                            Some(st) => {
                                let s64 = st as u64;
                                let n64 = n as u64;
                                proof {
                                    assert(s64 * n64 <= 0xffff_ffffu64 * 0xffff_ffffu64)
                                        by (nonlinear_arith)
                                        requires
                                            s64 <= 0xffff_ffffu64,
                                            n64 <= 0xffff_ffffu64,
                                    ;
                                }
                                if s64 * n64 <= u32::MAX as u64 {
                                    Some((s64 * n64) as u32)
                                } else {
                                    None
                                }
                            },
                            None => None,
                        }
                    },
                    None => None,
                }
            } else if d.opcode == OP_TYPE_STRUCT {
                let ops = &d.operands;
                match struct_extent(spirv, tid, ops, 1, fuel - 1) {
                    Some((lo, hi)) => {
                        if lo <= hi {
                            Some(hi)
                        } else {
                            None
                        }
                    },
                    None => None,
                }
            } else {
                None
            }
        },
        None => None,
    }
}

/// The smallest member offset and largest member end of a struct.
fn struct_extent(spirv: &Spirv, sid: u32, ops: &Vec<u32>, k: usize, fuel: usize) -> (r: Option<
    (u32, u32),
>)
    requires
        spirv.wf(),
        k >= 1,
    ensures
        r == spec_struct_extent(spirv@.instructions, sid, ops@, k as int, fuel as nat),
    decreases fuel, ops@.len() - k + 1,
{
    if k >= ops.len() {
        return Some((0xffff_ffff, 0));
    }
    match spirv.member_decoration_value(sid, (k - 1) as u32, DECORATION_OFFSET) {
        Some(off) => {
            match type_size(spirv, ops[k], fuel) {
                Some(sz) => {
                    if off as u64 + sz as u64 <= u32::MAX as u64 {
                        match struct_extent(spirv, sid, ops, k + 1, fuel) {
                            Some((lo, hi)) => Some(
                                (
                                    if off < lo {
                                        off
                                    } else {
                                        lo
                                    },
                                    if off + sz > hi {
                                        off + sz
                                    } else {
                                        hi
                                    },
                                ),
                            ),
                            None => None,
                        }
                    } else {
                        None
                    }
                },
                None => None,
            }
        },
        None => None,
    }
}

/// Whether the entry point can reach variable `v`: one of its instructions
/// mentions it, or its interface list names it.
pub open spec fn spec_var_reached(
    insts: Seq<InstructionView>,
    idxs: Seq<int>,
    iface: Seq<u32>,
    v: u32,
) -> bool {
    spec_var_used(insts, idxs, v) || iface.contains(v)
}

/// Whether the entry point can reach variable `v`.
pub fn var_reached(spirv: &Spirv, idxs: &Vec<usize>, iface: &Vec<u32>, v: u32) -> (r: bool)
    requires
        forall|j: int| 0 <= j < idxs@.len() ==> #[trigger] idxs@[j] < spirv@.instructions.len(),
    ensures
        r == spec_var_reached(
            spirv@.instructions,
            idxs@.map_values(|u: usize| u as int),
            iface@,
            v,
        ),
{
    if var_used(spirv, idxs, v) {
        return true;
    }
    let n = iface.len();
    let mut i: usize = 0;
    while i < n
        invariant
            n == iface@.len(),
            i <= n,
            forall|j: int| 0 <= j < i ==> iface@[j] != v,
        decreases n - i,
    {
        if iface[i] == v {
            return true;
        }
        i = i + 1;
    }
    false
}

/// The index, at or after `i`, of the first push-constant variable that the
/// entry point reaches.
pub open spec fn spec_push_var_from(
    insts: Seq<InstructionView>,
    idxs: Seq<int>,
    iface: Seq<u32>,
    i: int,
) -> Option<int>
    decreases insts.len() - i,
{
    if i < 0 || i >= insts.len() {
        None
    } else if insts[i].opcode == OP_VARIABLE && insts[i].operands.len() >= 3
        && insts[i].operands[2] == STORAGE_PUSH_CONSTANT && spec_var_reached(
        insts,
        idxs,
        iface,
        insts[i].operands[1],
    ) {
        Some(i)
    } else {
        spec_push_var_from(insts, idxs, iface, i + 1)
    }
}

/// A found push-constant variable has the shape the search asked for.
proof fn lemma_push_var_props(insts: Seq<InstructionView>, idxs: Seq<int>, iface: Seq<u32>, i: int)
    requires
        spec_push_var_from(insts, idxs, iface, i) is Some,
    ensures
        ({
            let vi = spec_push_var_from(insts, idxs, iface, i)->Some_0;
            &&& 0 <= vi < insts.len()
            &&& insts[vi].opcode == OP_VARIABLE
            &&& insts[vi].operands.len() >= 3
            &&& insts[vi].operands[2] == STORAGE_PUSH_CONSTANT
        }),
    decreases insts.len() - i,
{
    if !(i < 0 || i >= insts.len()) {
        if !(insts[i].opcode == OP_VARIABLE && insts[i].operands.len() >= 3 && insts[i].operands[2]
            == STORAGE_PUSH_CONSTANT && spec_var_reached(insts, idxs, iface, insts[i].operands[1])) {
            lemma_push_var_props(insts, idxs, iface, i + 1);
        }
    }
}

/// The push-constant range an entry point uses: the extent of the members
/// of the block declared by the first push-constant variable the entry
/// point reaches, tagged with the entry point's stage.
pub open spec fn spec_push_constant_range(
    insts: Seq<InstructionView>,
    idxs: Seq<int>,
    iface: Seq<u32>,
    stage_bits: u32,
) -> Option<PushConstantRange> {
    match spec_push_var_from(insts, idxs, iface, 0) {
        None => None,
        Some(vi) => {
            let d = insts[vi];
            match spec_pointee(insts, d.operands[0]) {
                Some(sid) => match spec_def(insts, sid) {
                    Some(sd) => if sd.opcode == OP_TYPE_STRUCT {
                        match spec_struct_extent(insts, sid, sd.operands, 1, insts.len() as nat) {
                            Some((lo, hi)) => if lo <= hi {
                                Some(
                                    PushConstantRange {
                                        stages: ShaderStages { bits: stage_bits },
                                        offset: lo,
                                        size: (hi - lo) as u32,
                                    },
                                )
                            } else {
                                None
                            },
                            None => None,
                        }
                    } else {
                        None
                    },
                    None => None,
                },
                None => None,
            }
        },
    }
}

/// The push-constant range an entry point uses, if any.
pub fn push_constant_range(spirv: &Spirv, idxs: &Vec<usize>, iface: &Vec<u32>, stage_bits: u32) -> (r:
    Option<PushConstantRange>)
    requires
        spirv.wf(),
        forall|j: int| 0 <= j < idxs@.len() ==> #[trigger] idxs@[j] < spirv@.instructions.len(),
    ensures
        r == spec_push_constant_range(
            spirv@.instructions,
            idxs@.map_values(|u: usize| u as int),
            iface@,
            stage_bits,
        ),
{
    let ghost iv = spirv@.instructions;
    let ghost gidx = idxs@.map_values(|u: usize| u as int);
    let n = spirv.len();
    let mut i: usize = 0;
    let mut var_index: Option<usize> = None;
    while i < n && var_index.is_none()
        invariant
            n == iv.len(),
            iv == spirv@.instructions,
            spirv.wf(),
            gidx == idxs@.map_values(|u: usize| u as int),
            forall|j: int| 0 <= j < idxs@.len() ==> #[trigger] idxs@[j] < iv.len(),
            i <= n,
            match var_index {
                None => spec_push_var_from(iv, gidx, iface@, 0) == spec_push_var_from(
                    iv,
                    gidx,
                    iface@,
                    i as int,
                ),
                Some(vi) => spec_push_var_from(iv, gidx, iface@, 0) == Some(vi as int) && vi < n,
            },
        decreases n - i, (if var_index is None { 1int } else { 0int }),
    {
        let inst = spirv.inst_at(i);
        if inst.opcode == OP_VARIABLE && inst.operands.len() >= 3 && inst.operands[2]
            == STORAGE_PUSH_CONSTANT && var_reached(spirv, idxs, iface, inst.operands[1]) {
            var_index = Some(i);
        } else {
            i = i + 1;
        }
    }
    match var_index {
        None => {
            proof {
                assert(spec_push_var_from(iv, gidx, iface@, n as int) is None);
            }
            None
        },
        Some(vi) => {
            proof {
                lemma_push_var_props(iv, gidx, iface@, 0);
            }
            let d = spirv.inst_at(vi);
            let d0 = d.operands[0];
            match pointee(spirv, d0) {
                Some(sid) => {
                    match spirv.def(sid) {
                        Some(sd) => {
                            if sd.opcode == OP_TYPE_STRUCT {
                                let sops = &sd.operands;
                                match struct_extent(spirv, sid, sops, 1, spirv.len()) {
                                    Some((lo, hi)) => {
                                        if lo <= hi {
                                            Some(
                                                PushConstantRange {
                                                    stages: ShaderStages { bits: stage_bits },
                                                    offset: lo,
                                                    size: hi - lo,
                                                },
                                            )
                                        } else {
                                            None
                                        }
                                    },
                                    None => None,
                                }
                            } else {
                                None
                            }
                        },
                        None => None,
                    }
                },
                None => None,
            }
        },
    }
}

/// Whether any member of struct `sid` is declared as a built-in variable.
pub fn struct_member_builtin(spirv: &Spirv, sid: u32) -> (r: bool)
    ensures
        r == spec_struct_member_builtin(spirv@.instructions, sid),
{
    let ghost iv = spirv@.instructions;
    let n = spirv.len();
    let mut i: usize = 0;
    while i < n
        invariant
            n == iv.len(),
            iv == spirv@.instructions,
            i <= n,
            spec_struct_member_builtin(iv, sid) == spec_struct_member_builtin_from(
                iv,
                sid,
                i as int,
            ),
        decreases n - i,
    {
        let inst = spirv.inst_at(i);
        if inst.opcode == OP_MEMBER_DECORATE && inst.operands.len() >= 3 && inst.operands[0] == sid
            && inst.operands[2] == DECORATION_BUILT_IN {
            return true;
        }
        i = i + 1;
    }
    false
}

/// How an access reaches a descriptor binding: directly, through a chain
/// whose first index is known, or through a chain whose first index is
/// computed at run time.
#[derive(Clone, Copy, Debug, PartialEq, Eq, Structural)]
pub enum ChainIndex {
    /// The binding is accessed whole, without an access chain.
    NoChain,
    /// The first chain index is not a compile-time constant.
    Dynamic,
    /// The first chain index is this constant.
    Fixed(u32),
}

/// Follows a pointer-valued result back to the variable it points into, and
/// the first access-chain index on the way, within the given step budget.
pub open spec fn spec_trace_pointer(insts: Seq<InstructionView>, id: u32, fuel: nat) -> Option<
    (u32, ChainIndex),
>
    decreases fuel,
{
    if fuel == 0 {
        None
    } else {
        match spec_def(insts, id) {
            None => None,
            Some(d) => if d.opcode == OP_VARIABLE && d.operands.len() >= 3 {
                Some((id, ChainIndex::NoChain))
            } else if (d.opcode == OP_ACCESS_CHAIN || d.opcode == OP_IN_BOUNDS_ACCESS_CHAIN
                || d.opcode == OP_PTR_ACCESS_CHAIN) && d.operands.len() >= 3 {
                match spec_trace_pointer(insts, d.operands[2], (fuel - 1) as nat) {
                    Some((v, ChainIndex::NoChain)) => if d.operands.len() >= 4 {
                        match spec_const_u32(insts, d.operands[3]) {
                            Some(c) => Some((v, ChainIndex::Fixed(c))),
                            None => Some((v, ChainIndex::Dynamic)),
                        }
                    } else {
                        Some((v, ChainIndex::NoChain))
                    },
                    Some((v, other)) => Some((v, other)),
                    None => None,
                }
            } else if (d.opcode == OP_COPY_OBJECT || d.opcode == OP_IMAGE_TEXEL_POINTER)
                && d.operands.len() >= 3 {
                spec_trace_pointer(insts, d.operands[2], (fuel - 1) as nat)
            } else {
                None
            },
        }
    }
}

/// Follows a pointer-valued result back to the variable it points into.
pub fn trace_pointer(spirv: &Spirv, id: u32, fuel: usize) -> (r: Option<(u32, ChainIndex)>)
    requires
        spirv.wf(),
    ensures
        r == spec_trace_pointer(spirv@.instructions, id, fuel as nat),
    decreases fuel,
{
    if fuel == 0 {
        return None;
    }
    match spirv.def(id) {
        None => None,
        Some(d) => {
            if d.opcode == OP_VARIABLE && d.operands.len() >= 3 {
                Some((id, ChainIndex::NoChain))
            } else if (d.opcode == OP_ACCESS_CHAIN || d.opcode == OP_IN_BOUNDS_ACCESS_CHAIN
                || d.opcode == OP_PTR_ACCESS_CHAIN) && d.operands.len() >= 3 {
                let base = d.operands[2];
                let has_index = d.operands.len() >= 4;
                let index_id = if has_index {
                    d.operands[3]
                } else {
                    0
                };
                match trace_pointer(spirv, base, fuel - 1) {
                    Some((v, ci)) => {
                        match ci {
                            ChainIndex::NoChain => {
                                if has_index {
                                    match const_u32(spirv, index_id) {
                                        Some(c) => Some((v, ChainIndex::Fixed(c))),
                                        None => Some((v, ChainIndex::Dynamic)),
                                    }
                                } else {
                                    Some((v, ChainIndex::NoChain))
                                }
                            },
                            _ => Some((v, ci)),
                        }
                    },
                    None => None,
                }
            } else if (d.opcode == OP_COPY_OBJECT || d.opcode == OP_IMAGE_TEXEL_POINTER)
                && d.operands.len() >= 3 {
                let base = d.operands[2];
                trace_pointer(spirv, base, fuel - 1)
            } else {
                None
            }
        },
    }
}

/// What an image- or sampler-valued result turns out to be.
#[derive(Clone, Copy, Debug, PartialEq, Eq, Structural)]
pub enum TracedValue {
    /// A value loaded from one variable.
    Variable { var: u32, index: ChainIndex },
    /// A combination of a sampled image and a sampler.
    SampledPair {
        image: u32,
        image_index: ChainIndex,
        sampler: u32,
        sampler_index: ChainIndex,
    },
}

/// Follows an image- or sampler-valued result back to the variables it was
/// loaded from, within the given step budget.
pub open spec fn spec_trace_value(insts: Seq<InstructionView>, id: u32, fuel: nat) -> Option<
    TracedValue,
>
    decreases fuel,
{
    if fuel == 0 {
        None
    } else {
        match spec_def(insts, id) {
            None => None,
            Some(d) => if d.opcode == OP_LOAD && d.operands.len() >= 3 {
                match spec_trace_pointer(insts, d.operands[2], (fuel - 1) as nat) {
                    Some((v, ci)) => Some(TracedValue::Variable { var: v, index: ci }),
                    None => None,
                }
            } else if d.opcode == OP_COPY_OBJECT && d.operands.len() >= 3 {
                spec_trace_value(insts, d.operands[2], (fuel - 1) as nat)
            } else if d.opcode == OP_SAMPLED_IMAGE && d.operands.len() >= 4 {
                match (
                    spec_trace_value(insts, d.operands[2], (fuel - 1) as nat),
                    spec_trace_value(insts, d.operands[3], (fuel - 1) as nat),
                ) {
                    (
                        Some(TracedValue::Variable { var: img, index: ii }),
                        Some(TracedValue::Variable { var: smp, index: si }),
                    ) => Some(
                        TracedValue::SampledPair {
                            image: img,
                            image_index: ii,
                            sampler: smp,
                            sampler_index: si,
                        },
                    ),
                    _ => None,
                }
            } else {
                None
            },
        }
    }
}

/// Follows an image- or sampler-valued result back to the variables it was
/// loaded from.
pub fn trace_value(spirv: &Spirv, id: u32, fuel: usize) -> (r: Option<TracedValue>)
    requires
        spirv.wf(),
    ensures
        r == spec_trace_value(spirv@.instructions, id, fuel as nat),
    decreases fuel,
{
    if fuel == 0 {
        return None;
    }
    match spirv.def(id) {
        None => None,
        Some(d) => {
            if d.opcode == OP_LOAD && d.operands.len() >= 3 {
                let ptr = d.operands[2];
                match trace_pointer(spirv, ptr, fuel - 1) {
                    Some((v, ci)) => Some(TracedValue::Variable { var: v, index: ci }),
                    None => None,
                }
            } else if d.opcode == OP_COPY_OBJECT && d.operands.len() >= 3 {
                let base = d.operands[2];
                trace_value(spirv, base, fuel - 1)
            } else if d.opcode == OP_SAMPLED_IMAGE && d.operands.len() >= 4 {
                let img_id = d.operands[2];
                let smp_id = d.operands[3];
                match (trace_value(spirv, img_id, fuel - 1), trace_value(spirv, smp_id, fuel - 1)) {
                    (
                        Some(TracedValue::Variable { var: img, index: ii }),
                        Some(TracedValue::Variable { var: smp, index: si }),
                    ) => Some(
                        TracedValue::SampledPair {
                            image: img,
                            image_index: ii,
                            sampler: smp,
                            sampler_index: si,
                        },
                    ),
                    _ => None,
                }
            } else {
                None
            }
        },
    }
}

/// The statically known descriptor index of an access: index 0 for a
/// binding that is not arrayed; for an arrayed binding, the first chain
/// index when it is a compile-time constant, and unknown otherwise.
pub open spec fn spec_desc_index(arrayed: bool, ci: ChainIndex) -> Option<u32> {
    if !arrayed {
        Some(0)
    } else {
        match ci {
            ChainIndex::Fixed(c) => Some(c),
            _ => None,
        }
    }
}

/// The statically known descriptor index of an access.
pub fn desc_index(arrayed: bool, ci: ChainIndex) -> (r: Option<u32>)
    ensures
        r == spec_desc_index(arrayed, ci),
{
    if !arrayed {
        Some(0)
    } else {
        match ci {
            ChainIndex::Fixed(c) => Some(c),
            _ => None,
        }
    }
}

/// Records one access in a per-descriptor requirement map: the stage's bit
/// enters the read and write sets as requested, flags are turned on, and a
/// sampled-image pairing is added to the pairing set.
pub open spec fn spec_touch(
    m: Map<u64, DescriptorRequirementsView>,
    key: u64,
    read: bool,
    write: bool,
    atomic: bool,
    compare: bool,
    no_unnorm: bool,
    no_ycbcr: bool,
    pair: Option<DescriptorIdentifier>,
    stage_bits: u32,
) -> Map<u64, DescriptorRequirementsView> {
    let cur = if m.contains_key(key) {
        m[key]
    } else {
        spec_descriptor_requirements_none()
    };
    m.insert(
        key,
        DescriptorRequirementsView {
            memory_read: ShaderStages {
                bits: cur.memory_read.bits | (if read {
                    stage_bits
                } else {
                    0
                }),
            },
            memory_write: ShaderStages {
                bits: cur.memory_write.bits | (if write {
                    stage_bits
                } else {
                    0
                }),
            },
            sampler_compare: cur.sampler_compare || compare,
            sampler_no_unnormalized_coordinates: cur.sampler_no_unnormalized_coordinates
                || no_unnorm,
            sampler_no_ycbcr_conversion: cur.sampler_no_ycbcr_conversion || no_ycbcr,
            sampler_with_images: match pair {
                Some(p) => spec_ids_insert(cur.sampler_with_images, p),
                None => cur.sampler_with_images,
            },
            storage_image_atomic: cur.storage_image_atomic || atomic,
        },
    )
}

/// Records one access in a per-descriptor requirement map.
fn touch(
    m: &mut KeyMap<DescriptorRequirements>,
    key: u64,
    read: bool,
    write: bool,
    atomic: bool,
    compare: bool,
    no_unnorm: bool,
    no_ycbcr: bool,
    pair: Option<DescriptorIdentifier>,
    stage_bits: u32,
)
    requires
        old(m).wf(),
    ensures
        final(m).wf(),
        spec_descriptors_view(*final(m)) == spec_touch(
            spec_descriptors_view(*old(m)),
            key,
            read,
            write,
            atomic,
            compare,
            no_unnorm,
            no_ycbcr,
            pair,
            stage_bits,
        ),
{
    let ghost pre = spec_descriptors_view(*m);
    let mut cur: DescriptorRequirements = match m.get(key) {
        Some(v) => v.duplicate(),
        None => DescriptorRequirements::none(),
    };
    cur.memory_read = ShaderStages {
        bits: cur.memory_read.bits | (if read {
            stage_bits
        } else {
            0
        }),
    };
    cur.memory_write = ShaderStages {
        bits: cur.memory_write.bits | (if write {
            stage_bits
        } else {
            0
        }),
    };
    cur.sampler_compare = cur.sampler_compare || compare;
    cur.sampler_no_unnormalized_coordinates = cur.sampler_no_unnormalized_coordinates || no_unnorm;
    cur.sampler_no_ycbcr_conversion = cur.sampler_no_ycbcr_conversion || no_ycbcr;
    cur.storage_image_atomic = cur.storage_image_atomic || atomic;
    match pair {
        Some(p) => {
            let mut already = false;
            let pn = cur.sampler_with_images.len();
            let mut pi: usize = 0;
            while pi < pn
                invariant
                    pn == cur.sampler_with_images@.len(),
                    pi <= pn,
                    already == exists|t: int| 0 <= t < pi && cur.sampler_with_images@[t] == p,
                decreases pn - pi,
            {
                if cur.sampler_with_images[pi] == p {
                    already = true;
                }
                pi = pi + 1;
            }
            proof {
                assert(already == cur.sampler_with_images@.contains(p));
            }
            if !already {
                cur.sampler_with_images.push(p);
            }
        },
        None => {},
    }
    m.insert(key, cur);
    proof {
        assert(spec_descriptors_view(*m) =~= spec_touch(
            pre,
            key,
            read,
            write,
            atomic,
            compare,
            no_unnorm,
            no_ycbcr,
            pair,
            stage_bits,
        ));
    }
}

/// The bit the sampler flags of a sampling instruction derive from: the
/// image-operand mask, which follows the coordinate (and any depth-compare
/// reference or gather component).
pub open spec fn spec_image_operand_mask(inst: InstructionView) -> u32 {
    let pos: int = if inst.opcode == OP_IMAGE_SAMPLE_IMPLICIT_LOD || inst.opcode == 88 || inst.opcode
        == 91 || inst.opcode == 92 {
        4
    } else {
        5
    };
    if inst.operands.len() > pos {
        inst.operands[pos]
    } else {
        0
    }
}

/// The image-operand mask of a sampling instruction.
pub fn image_operand_mask(inst: &Instruction) -> (r: u32)
    ensures
        r == spec_image_operand_mask(inst@),
{
    let pos: usize = if inst.opcode == OP_IMAGE_SAMPLE_IMPLICIT_LOD || inst.opcode == 88
        || inst.opcode == 91 || inst.opcode == 92 {
        4
    } else {
        5
    };
    if inst.operands.len() > pos {
        inst.operands[pos]
    } else {
        0
    }
}

/// How one instruction uses the descriptor bound to variable `rid`: loads
/// and sampling mark reads, stores and image writes mark writes, atomic
/// operations mark both (and atomic use of a storage image), and the
/// sampling instruction forms determine the sampler flags and the
/// sampler/image pairings.
pub open spec fn spec_apply_usage(
    insts: Seq<InstructionView>,
    inst: InstructionView,
    rid: u32,
    arrayed: bool,
    stage_bits: u32,
    m: Map<u64, DescriptorRequirementsView>,
) -> Map<u64, DescriptorRequirementsView> {
    let fuel = insts.len() as nat;
    if inst.opcode == OP_LOAD && inst.operands.len() >= 3 {
        match spec_trace_pointer(insts, inst.operands[2], fuel) {
            Some((v, ci)) => if v == rid {
                spec_touch(
                    m,
                    spec_index_key(spec_desc_index(arrayed, ci)),
                    true,
                    false,
                    false,
                    false,
                    false,
                    false,
                    None,
                    stage_bits,
                )
            } else {
                m
            },
            None => m,
        }
    } else if inst.opcode == OP_STORE && inst.operands.len() >= 1 {
        match spec_trace_pointer(insts, inst.operands[0], fuel) {
            Some((v, ci)) => if v == rid {
                spec_touch(
                    m,
                    spec_index_key(spec_desc_index(arrayed, ci)),
                    false,
                    true,
                    false,
                    false,
                    false,
                    false,
                    None,
                    stage_bits,
                )
            } else {
                m
            },
            None => m,
        }
    } else if (inst.opcode == OP_ATOMIC_LOAD || (OP_ATOMIC_EXCHANGE <= inst.opcode && inst.opcode
        <= OP_ATOMIC_XOR)) && inst.operands.len() >= 3 {
        match spec_trace_pointer(insts, inst.operands[2], fuel) {
            Some((v, ci)) => if v == rid {
                spec_touch(
                    m,
                    spec_index_key(spec_desc_index(arrayed, ci)),
                    true,
                    inst.opcode != OP_ATOMIC_LOAD,
                    spec_through_texel_pointer(insts, inst.operands[2]),
                    false,
                    false,
                    false,
                    None,
                    stage_bits,
                )
            } else {
                m
            },
            None => m,
        }
    } else if inst.opcode == OP_ATOMIC_STORE && inst.operands.len() >= 1 {
        match spec_trace_pointer(insts, inst.operands[0], fuel) {
            Some((v, ci)) => if v == rid {
                spec_touch(
                    m,
                    spec_index_key(spec_desc_index(arrayed, ci)),
                    false,
                    true,
                    spec_through_texel_pointer(insts, inst.operands[0]),
                    false,
                    false,
                    false,
                    None,
                    stage_bits,
                )
            } else {
                m
            },
            None => m,
        }
    } else if inst.opcode == OP_IMAGE_WRITE && inst.operands.len() >= 1 {
        match spec_trace_value(insts, inst.operands[0], fuel) {
            Some(TracedValue::Variable { var: v, index: ci }) => if v == rid {
                spec_touch(
                    m,
                    spec_index_key(spec_desc_index(arrayed, ci)),
                    false,
                    true,
                    false,
                    false,
                    false,
                    false,
                    None,
                    stage_bits,
                )
            } else {
                m
            },
            _ => m,
        }
    } else if (inst.opcode == OP_IMAGE_READ || inst.opcode == OP_IMAGE_FETCH)
        && inst.operands.len() >= 3 {
        match spec_trace_value(insts, inst.operands[2], fuel) {
            Some(TracedValue::Variable { var: v, index: ci }) => if v == rid {
                spec_touch(
                    m,
                    spec_index_key(spec_desc_index(arrayed, ci)),
                    true,
                    false,
                    false,
                    false,
                    false,
                    false,
                    None,
                    stage_bits,
                )
            } else {
                m
            },
            _ => m,
        }
    } else if ((OP_IMAGE_SAMPLE_IMPLICIT_LOD <= inst.opcode && inst.opcode
        <= OP_IMAGE_SAMPLE_PROJ_DREF_EXPLICIT_LOD) || inst.opcode == OP_IMAGE_GATHER || inst.opcode
        == OP_IMAGE_DREF_GATHER) && inst.operands.len() >= 3 {
        let dref = inst.opcode == 89 || inst.opcode == 90 || inst.opcode == 93 || inst.opcode == 94
            || inst.opcode == OP_IMAGE_DREF_GATHER;
        let implicit_or_proj = inst.opcode == 87 || inst.opcode == 89 || inst.opcode == 91
            || inst.opcode == 92 || inst.opcode == 93 || inst.opcode == 94;
        let mask = spec_image_operand_mask(inst);
        let bias = mask % 2 == 1;
        let offset = (mask / 8) % 2 == 1 || (mask / 16) % 2 == 1;
        let gather = inst.opcode == OP_IMAGE_GATHER || inst.opcode == OP_IMAGE_DREF_GATHER;
        let no_unnorm = implicit_or_proj || dref || bias || offset;
        let no_ycbcr = gather || offset;
        match spec_trace_value(insts, inst.operands[2], fuel) {
            Some(TracedValue::Variable { var: v, index: ci }) => if v == rid {
                spec_touch(
                    m,
                    spec_index_key(spec_desc_index(arrayed, ci)),
                    true,
                    false,
                    false,
                    dref,
                    no_unnorm,
                    no_ycbcr,
                    None,
                    stage_bits,
                )
            } else {
                m
            },
            Some(
                TracedValue::SampledPair {
                    image: img,
                    image_index: ii,
                    sampler: smp,
                    sampler_index: si,
                },
            ) => {
                let m1 = if img == rid {
                    spec_touch(
                        m,
                        spec_index_key(spec_desc_index(arrayed, ii)),
                        true,
                        false,
                        false,
                        false,
                        false,
                        false,
                        None,
                        stage_bits,
                    )
                } else {
                    m
                };
                if smp == rid {
                    let p = DescriptorIdentifier {
                        set: spec_or_zero(
                            spec_decoration_value(insts, img, DECORATION_DESCRIPTOR_SET),
                        ),
                        binding: spec_or_zero(spec_decoration_value(insts, img, DECORATION_BINDING)),
                        index: match ii {
                            ChainIndex::Fixed(c) => c,
                            _ => 0,
                        },
                    };
                    spec_touch(
                        m1,
                        spec_index_key(spec_desc_index(arrayed, si)),
                        false,
                        false,
                        false,
                        dref,
                        no_unnorm,
                        no_ycbcr,
                        Some(p),
                        stage_bits,
                    )
                } else {
                    m1
                }
            },
            None => m,
        }
    } else {
        m
    }
}

/// The view type an image type's dimensionality and arrayedness imply.
pub open spec fn spec_image_view_type(dim: u32, arr: u32) -> Option<ImageViewType> {
    if dim == 0 {
        Some(
            if arr == 1 {
                ImageViewType::Dim1dArray
            } else {
                ImageViewType::Dim1d
            },
        )
    } else if dim == 1 {
        Some(
            if arr == 1 {
                ImageViewType::Dim2dArray
            } else {
                ImageViewType::Dim2d
            },
        )
    } else if dim == 2 {
        Some(ImageViewType::Dim3d)
    } else if dim == 3 {
        Some(
            if arr == 1 {
                ImageViewType::CubeArray
            } else {
                ImageViewType::Cube
            },
        )
    } else {
        None
    }
}

/// The view type an image type's dimensionality and arrayedness imply.
pub fn image_view_type(dim: u32, arr: u32) -> (r: Option<ImageViewType>)
    ensures
        r == spec_image_view_type(dim, arr),
{
    if dim == 0 {
        Some(
            if arr == 1 {
                ImageViewType::Dim1dArray
            } else {
                ImageViewType::Dim1d
            },
        )
    } else if dim == 1 {
        Some(
            if arr == 1 {
                ImageViewType::Dim2dArray
            } else {
                ImageViewType::Dim2d
            },
        )
    } else if dim == 2 {
        Some(ImageViewType::Dim3d)
    } else if dim == 3 {
        Some(
            if arr == 1 {
                ImageViewType::CubeArray
            } else {
                ImageViewType::Cube
            },
        )
    } else {
        None
    }
}

/// What a resource type says about the binding: the allowed descriptor
/// types, and the image constraints for image-backed bindings.
pub struct DescriptorTypeInfo {
    pub descriptor_types: Seq<DescriptorType>,
    pub image_format: Option<Format>,
    pub image_multisampled: bool,
    pub image_scalar_type: Option<NumericType>,
    pub image_view_type: Option<ImageViewType>,
}

/// The scalar kind of a sampled type, ignoring its width.
pub open spec fn spec_scalar_numeric(insts: Seq<InstructionView>, tid: u32) -> Option<NumericType> {
    match spec_scalar_type(insts, tid) {
        Some((n, _)) => Some(n),
        None => None,
    }
}

/// The constraints an image type imposes.
pub open spec fn spec_image_info(
    insts: Seq<InstructionView>,
    im: InstructionView,
    types: Seq<DescriptorType>,
) -> DescriptorTypeInfo {
    DescriptorTypeInfo {
        descriptor_types: types,
        image_format: spec_format_from_word(im.operands[7]),
        image_multisampled: im.operands[5] == 1,
        image_scalar_type: spec_scalar_numeric(insts, im.operands[1]),
        image_view_type: spec_image_view_type(im.operands[2], im.operands[4]),
    }
}

/// The descriptor types a resource type allows, and its image constraints:
/// samplers, combined image samplers, sampled and storage images, texel
/// buffers, input attachments, and uniform or storage buffer blocks (either
/// of which allows its dynamic variant as well).
pub open spec fn spec_descriptor_type_info(
    insts: Seq<InstructionView>,
    inner: u32,
    storage: u32,
) -> Option<DescriptorTypeInfo> {
    match spec_def(insts, inner) {
        Some(d) => if d.opcode == OP_TYPE_SAMPLER {
            Some(
                DescriptorTypeInfo {
                    descriptor_types: seq![DescriptorType::Sampler],
                    image_format: None,
                    image_multisampled: false,
                    image_scalar_type: None,
                    image_view_type: None,
                },
            )
        } else if d.opcode == OP_TYPE_SAMPLED_IMAGE && d.operands.len() >= 2 {
            match spec_def(insts, d.operands[1]) {
                Some(im) => if im.opcode == OP_TYPE_IMAGE && im.operands.len() >= 8 {
                    Some(spec_image_info(insts, im, seq![DescriptorType::CombinedImageSampler]))
                } else {
                    None
                },
                None => None,
            }
        } else if d.opcode == OP_TYPE_IMAGE && d.operands.len() >= 8 {
            let dim = d.operands[2];
            let sampled = d.operands[6];
            let types: Seq<DescriptorType> = if dim == 5 {
                if sampled == 2 {
                    seq![DescriptorType::StorageTexelBuffer]
                } else {
                    seq![DescriptorType::UniformTexelBuffer]
                }
            } else if dim == 6 {
                seq![DescriptorType::InputAttachment]
            } else if sampled == 2 {
                seq![DescriptorType::StorageImage]
            } else {
                seq![DescriptorType::SampledImage]
            };
            Some(spec_image_info(insts, d, types))
        } else if d.opcode == OP_TYPE_STRUCT {
            if storage == STORAGE_STORAGE_BUFFER || spec_has_decoration(
                insts,
                inner,
                DECORATION_BUFFER_BLOCK,
            ) {
                Some(
                    DescriptorTypeInfo {
                        descriptor_types: seq![
                            DescriptorType::StorageBuffer,
                            DescriptorType::StorageBufferDynamic,
                        ],
                        image_format: None,
                        image_multisampled: false,
                        image_scalar_type: None,
                        image_view_type: None,
                    },
                )
            } else {
                Some(
                    DescriptorTypeInfo {
                        descriptor_types: seq![
                            DescriptorType::UniformBuffer,
                            DescriptorType::UniformBufferDynamic,
                        ],
                        image_format: None,
                        image_multisampled: false,
                        image_scalar_type: None,
                        image_view_type: None,
                    },
                )
            }
        } else {
            None
        },
        None => None,
    }
}

/// The descriptor types a resource type allows, and its image constraints.
fn descriptor_type_info(spirv: &Spirv, inner: u32, storage: u32) -> (r: Option<
    (Vec<DescriptorType>, Option<Format>, bool, Option<NumericType>, Option<ImageViewType>),
>)
    requires
        spirv.wf(),
    ensures
        match r {
            Some((tv, f, ms, sc, vt)) => spec_descriptor_type_info(
                spirv@.instructions,
                inner,
                storage,
            ) matches Some(info) && info.descriptor_types == tv@ && info.image_format == f
                && info.image_multisampled == ms && info.image_scalar_type == sc
                && info.image_view_type == vt,
            None => spec_descriptor_type_info(spirv@.instructions, inner, storage) is None,
        },
{
    let ghost iv = spirv@.instructions;
    match spirv.def(inner) {
        Some(d) => {
            if d.opcode == OP_TYPE_SAMPLER {
                let mut tv: Vec<DescriptorType> = Vec::new();
                tv.push(DescriptorType::Sampler);
                proof {
                    assert(tv@ =~= seq![DescriptorType::Sampler]);
                }
                Some((tv, None, false, None, None))
            } else if d.opcode == OP_TYPE_SAMPLED_IMAGE && d.operands.len() >= 2 {
                let imid = d.operands[1];
                match spirv.def(imid) {
                    Some(im) => {
                        if im.opcode == OP_TYPE_IMAGE && im.operands.len() >= 8 {
                            let mut tv: Vec<DescriptorType> = Vec::new();
                            tv.push(DescriptorType::CombinedImageSampler);
                            proof {
                                assert(tv@ =~= seq![DescriptorType::CombinedImageSampler]);
                            }
                            let f = format_from_word(im.operands[7]);
                            let ms = im.operands[5] == 1;
                            let sc = match scalar_type(spirv, im.operands[1]) {
                                Some((n, _)) => Some(n),
                                None => None,
                            };
                            let vt = image_view_type(im.operands[2], im.operands[4]);
                            Some((tv, f, ms, sc, vt))
                        } else {
                            None
                        }
                    },
                    None => None,
                }
            } else if d.opcode == OP_TYPE_IMAGE && d.operands.len() >= 8 {
                let dim = d.operands[2];
                let sampled = d.operands[6];
                let mut tv: Vec<DescriptorType> = Vec::new();
                if dim == 5 {
                    if sampled == 2 {
                        tv.push(DescriptorType::StorageTexelBuffer);
                    } else {
                        tv.push(DescriptorType::UniformTexelBuffer);
                    }
                } else if dim == 6 {
                    tv.push(DescriptorType::InputAttachment);
                } else if sampled == 2 {
                    tv.push(DescriptorType::StorageImage);
                } else {
                    tv.push(DescriptorType::SampledImage);
                }
                proof {
                    assert(tv@ =~= spec_descriptor_type_info(
                        iv,
                        inner,
                        storage,
                    )->Some_0.descriptor_types);
                }
                let f = format_from_word(d.operands[7]);
                let ms = d.operands[5] == 1;
                let sc = match scalar_type(spirv, d.operands[1]) {
                    Some((n, _)) => Some(n),
                    None => None,
                };
                let vt = image_view_type(d.operands[2], d.operands[4]);
                Some((tv, f, ms, sc, vt))
            } else if d.opcode == OP_TYPE_STRUCT {
                let mut tv: Vec<DescriptorType> = Vec::new();
                if storage == STORAGE_STORAGE_BUFFER || spirv.has_decoration(
                    inner,
                    DECORATION_BUFFER_BLOCK,
                ) {
                    tv.push(DescriptorType::StorageBuffer);
                    tv.push(DescriptorType::StorageBufferDynamic);
                } else {
                    tv.push(DescriptorType::UniformBuffer);
                    tv.push(DescriptorType::UniformBufferDynamic);
                }
                proof {
                    assert(tv@ =~= spec_descriptor_type_info(
                        iv,
                        inner,
                        storage,
                    )->Some_0.descriptor_types);
                }
                Some((tv, None, false, None, None))
            } else {
                None
            }
        },
        None => None,
    }
}

/// The per-descriptor requirements variable `rid` accumulates over the
/// first `k` entry-point instructions.
pub open spec fn spec_var_descriptors(
    insts: Seq<InstructionView>,
    idxs: Seq<int>,
    k: int,
    rid: u32,
    arrayed: bool,
    stage_bits: u32,
) -> Map<u64, DescriptorRequirementsView>
    decreases k,
{
    if k <= 0 {
        Map::empty()
    } else {
        spec_apply_usage(
            insts,
            insts[idxs[k - 1]],
            rid,
            arrayed,
            stage_bits,
            spec_var_descriptors(insts, idxs, k - 1, rid, arrayed, stage_bits),
        )
    }
}

/// The per-descriptor requirements variable `rid` accumulates over the
/// entry point's instructions.
fn var_descriptors(spirv: &Spirv, idxs: &Vec<usize>, rid: u32, arrayed: bool, stage_bits: u32) -> (r:
    KeyMap<DescriptorRequirements>)
    requires
        spirv.wf(),
        forall|j: int| 0 <= j < idxs@.len() ==> #[trigger] idxs@[j] < spirv@.instructions.len(),
    ensures
        r.wf(),
        spec_descriptors_view(r) == spec_var_descriptors(
            spirv@.instructions,
            idxs@.map_values(|u: usize| u as int),
            idxs@.len() as int,
            rid,
            arrayed,
            stage_bits,
        ),
{
    let ghost iv = spirv@.instructions;
    let ghost gidx = idxs@.map_values(|u: usize| u as int);
    let mut m: KeyMap<DescriptorRequirements> = KeyMap::new();
    let n = idxs.len();
    let mut j: usize = 0;
    proof {
        assert(spec_descriptors_view(m) =~= Map::<u64, DescriptorRequirementsView>::empty());
    }
    while j < n
        invariant
            iv == spirv@.instructions,
            spirv.wf(),
            n == idxs@.len(),
            gidx == idxs@.map_values(|u: usize| u as int),
            forall|t: int| 0 <= t < idxs@.len() ==> #[trigger] idxs@[t] < iv.len(),
            j <= n,
            m.wf(),
            spec_descriptors_view(m) == spec_var_descriptors(
                iv,
                gidx,
                j as int,
                rid,
                arrayed,
                stage_bits,
            ),
        decreases n - j,
    {
        proof {
            assert(gidx[j as int] == idxs@[j as int] as int);
        }
        let inst = spirv.inst_at(idxs[j]);
        apply_usage(spirv, inst, rid, arrayed, stage_bits, &mut m);
        j = j + 1;
    }
    m
}

/// The key a binding is stored under: the set in the high half, the binding
/// number in the low half.
pub open spec fn spec_binding_key(set: u32, binding: u32) -> u64 {
    (set * 0x1_0000_0000 + binding) as u64
}

/// The key a binding is stored under.
pub fn binding_key(set: u32, binding: u32) -> (r: u64)
    ensures
        r == spec_binding_key(set, binding),
{
    (set as u64) * 0x1_0000_0000u64 + (binding as u64)
}

/// The binding requirements contributed by the variable defined at
/// instruction `vi`, when it is a resource variable that the entry point
/// reaches, through its instructions or its interface list: its set/binding
/// key and the requirements derived from its type and uses.
pub open spec fn spec_variable_binding(
    insts: Seq<InstructionView>,
    idxs: Seq<int>,
    iface: Seq<u32>,
    vi: int,
    stage_bits: u32,
) -> Option<(u64, DescriptorBindingRequirementsView)> {
    let d = insts[vi];
    if !(d.opcode == OP_VARIABLE && d.operands.len() >= 3 && (d.operands[2]
        == STORAGE_UNIFORM_CONSTANT || d.operands[2] == STORAGE_UNIFORM || d.operands[2]
        == STORAGE_STORAGE_BUFFER)) {
        None
    } else {
        let rid = d.operands[1];
        if !spec_var_reached(insts, idxs, iface, rid) {
            None
        } else {
            match spec_pointee(insts, d.operands[0]) {
                Some(ptid) => {
                    let unwrapped = spec_unwrap_binding_type(insts, ptid);
                    let count = unwrapped.0;
                    let arrayed = unwrapped.1;
                    let inner = unwrapped.2;
                    match spec_descriptor_type_info(insts, inner, d.operands[2]) {
                        Some(info) => {
                            let set = spec_or_zero(
                                spec_decoration_value(insts, rid, DECORATION_DESCRIPTOR_SET),
                            );
                            let binding = spec_or_zero(
                                spec_decoration_value(insts, rid, DECORATION_BINDING),
                            );
                            Some(
                                (
                                    spec_binding_key(set, binding),
                                    DescriptorBindingRequirementsView {
                                        descriptor_types: info.descriptor_types,
                                        descriptor_count: count,
                                        image_format: info.image_format,
                                        image_multisampled: info.image_multisampled,
                                        image_scalar_type: info.image_scalar_type,
                                        image_view_type: info.image_view_type,
                                        stages: ShaderStages { bits: stage_bits },
                                        descriptors: spec_var_descriptors(
                                            insts,
                                            idxs,
                                            idxs.len() as int,
                                            rid,
                                            arrayed,
                                            stage_bits,
                                        ),
                                    },
                                ),
                            )
                        },
                        None => None,
                    }
                },
                None => None,
            }
        }
    }
}

/// Unwraps a binding's pointee type to its descriptor count, whether it is
/// arrayed, and the element type: a sized array gives its length, a
/// runtime-sized array gives no bound, and anything else is a single
/// descriptor.
pub open spec fn spec_unwrap_binding_type(insts: Seq<InstructionView>, ptid: u32) -> (
    Option<u32>,
    bool,
    u32,
) {
    match spec_def(insts, ptid) {
        Some(pd) => if pd.opcode == OP_TYPE_ARRAY && pd.operands.len() >= 3 {
            (spec_const_u32(insts, pd.operands[2]), true, pd.operands[1])
        } else if pd.opcode == OP_TYPE_RUNTIME_ARRAY && pd.operands.len() >= 2 {
            (None, true, pd.operands[1])
        } else {
            (Some(1), false, ptid)
        },
        None => (Some(1), false, ptid),
    }
}

/// Unwraps a binding's pointee type.
pub fn unwrap_binding_type(spirv: &Spirv, ptid: u32) -> (r: (Option<u32>, bool, u32))
    requires
        spirv.wf(),
    ensures
        r == spec_unwrap_binding_type(spirv@.instructions, ptid),
{
    match spirv.def(ptid) {
        Some(pd) => {
            if pd.opcode == OP_TYPE_ARRAY && pd.operands.len() >= 3 {
                (const_u32(spirv, pd.operands[2]), true, pd.operands[1])
            } else if pd.opcode == OP_TYPE_RUNTIME_ARRAY && pd.operands.len() >= 2 {
                (None, true, pd.operands[1])
            } else {
                (Some(1), false, ptid)
            }
        },
        None => (Some(1), false, ptid),
    }
}

/// The binding requirements contributed by the variable defined at
/// instruction `vi`, if it is a resource variable the entry point uses.
fn variable_binding(
    spirv: &Spirv,
    idxs: &Vec<usize>,
    iface: &Vec<u32>,
    vi: usize,
    stage_bits: u32,
) -> (r: Option<(u64, DescriptorBindingRequirements)>)
    requires
        spirv.wf(),
        vi < spirv@.instructions.len(),
        forall|j: int| 0 <= j < idxs@.len() ==> #[trigger] idxs@[j] < spirv@.instructions.len(),
    ensures
        match r {
            Some(p) => spec_variable_binding(
                spirv@.instructions,
                idxs@.map_values(|u: usize| u as int),
                iface@,
                vi as int,
                stage_bits,
            ) == Some((p.0, p.1@)) && p.1.wf(),
            None => spec_variable_binding(
                spirv@.instructions,
                idxs@.map_values(|u: usize| u as int),
                iface@,
                vi as int,
                stage_bits,
            ) is None,
        },
{
    let ghost iv = spirv@.instructions;
    let ghost gidx = idxs@.map_values(|u: usize| u as int);
    let d = spirv.inst_at(vi);
    if !(d.opcode == OP_VARIABLE && d.operands.len() >= 3 && (d.operands[2]
        == STORAGE_UNIFORM_CONSTANT || d.operands[2] == STORAGE_UNIFORM || d.operands[2]
        == STORAGE_STORAGE_BUFFER)) {
        return None;
    }
    let rid = d.operands[1];
    if !var_reached(spirv, idxs, iface, rid) {
        return None;
    }
    let d0 = d.operands[0];
    let storage = d.operands[2];
    match pointee(spirv, d0) {
        Some(ptid) => {
            let (count, arrayed, inner) = unwrap_binding_type(spirv, ptid);
            match descriptor_type_info(spirv, inner, storage) {
                Some((tv, f, ms, sc, vt)) => {
                    let set = match spirv.decoration_value(rid, DECORATION_DESCRIPTOR_SET) {
                        Some(v) => v,
                        None => 0,
                    };
                    let binding = match spirv.decoration_value(rid, DECORATION_BINDING) {
                        Some(v) => v,
                        None => 0,
                    };
                    let descriptors = var_descriptors(spirv, idxs, rid, arrayed, stage_bits);
                    let dbr = DescriptorBindingRequirements {
                        descriptor_types: tv,
                        descriptor_count: count,
                        image_format: f,
                        image_multisampled: ms,
                        image_scalar_type: sc,
                        image_view_type: vt,
                        stages: ShaderStages { bits: stage_bits },
                        descriptors,
                    };
                    proof {
                        assert(dbr@ =~= spec_variable_binding(
                            iv,
                            gidx,
                            iface@,
                            vi as int,
                            stage_bits,
                        )->Some_0.1);
                    }
                    Some((binding_key(set, binding), dbr))
                },
                None => None,
            }
        },
        None => None,
    }
}

/// The binding requirements the first `n` instructions contribute: each
/// used resource variable's requirements, keyed by set and binding. A later
/// declaration of the same set and binding replaces an earlier one.
pub open spec fn spec_binding_reqs_upto(
    insts: Seq<InstructionView>,
    idxs: Seq<int>,
    iface: Seq<u32>,
    n: int,
    stage_bits: u32,
) -> Map<u64, DescriptorBindingRequirementsView>
    decreases n,
{
    if n <= 0 {
        Map::empty()
    } else {
        let m = spec_binding_reqs_upto(insts, idxs, iface, n - 1, stage_bits);
        match spec_variable_binding(insts, idxs, iface, n - 1, stage_bits) {
            Some((k, v)) => m.insert(k, v),
            None => m,
        }
    }
}

/// The binding requirements an entry point's instructions impose, keyed by
/// set and binding.
pub open spec fn spec_binding_requirements(
    insts: Seq<InstructionView>,
    idxs: Seq<int>,
    iface: Seq<u32>,
    stage_bits: u32,
) -> Map<u64, DescriptorBindingRequirementsView> {
    spec_binding_reqs_upto(insts, idxs, iface, insts.len() as int, stage_bits)
}

/// The map of exec binding requirements, with each value abstracted to its
/// view.
pub open spec fn spec_bindings_view(km: KeyMap<DescriptorBindingRequirements>) -> Map<
    u64,
    DescriptorBindingRequirementsView,
> {
    km@.map_values(|v: DescriptorBindingRequirements| v@)
}

/// The binding requirements an entry point's instructions impose.
pub fn binding_requirements(spirv: &Spirv, idxs: &Vec<usize>, iface: &Vec<u32>, stage_bits: u32) -> (r:
    KeyMap<DescriptorBindingRequirements>)
    requires
        spirv.wf(),
        forall|j: int| 0 <= j < idxs@.len() ==> #[trigger] idxs@[j] < spirv@.instructions.len(),
    ensures
        r.wf(),
        spec_bindings_view(r) == spec_binding_requirements(
            spirv@.instructions,
            idxs@.map_values(|u: usize| u as int),
            iface@,
            stage_bits,
        ),
        forall|k: u64| r@.contains_key(k) ==> (#[trigger] r@[k]).wf(),
{
    let ghost iv = spirv@.instructions;
    let ghost gidx = idxs@.map_values(|u: usize| u as int);
    let mut km: KeyMap<DescriptorBindingRequirements> = KeyMap::new();
    let n = spirv.len();
    let mut i: usize = 0;
    proof {
        assert(spec_bindings_view(km) =~= Map::<u64, DescriptorBindingRequirementsView>::empty());
    }
    while i < n
        invariant
            iv == spirv@.instructions,
            spirv.wf(),
            n == iv.len(),
            gidx == idxs@.map_values(|u: usize| u as int),
            forall|t: int| 0 <= t < idxs@.len() ==> #[trigger] idxs@[t] < iv.len(),
            i <= n,
            km.wf(),
            spec_bindings_view(km) == spec_binding_reqs_upto(iv, gidx, iface@, i as int, stage_bits),
            forall|k: u64| km@.contains_key(k) ==> (#[trigger] km@[k]).wf(),
        decreases n - i,
    {
        let ghost pre = spec_bindings_view(km);
        match variable_binding(spirv, idxs, iface, i, stage_bits) {
            Some((k, v)) => {
                km.insert(k, v);
                proof {
                    assert(spec_bindings_view(km) =~= pre.insert(
                        k,
                        spec_variable_binding(iv, gidx, iface@, i as int, stage_bits)->Some_0.1,
                    ));
                }
            },
            None => {},
        }
        i = i + 1;
    }
    km
}

/// The information associated with a single entry point in a shader.
#[derive(Debug)]
pub struct EntryPointInfo {
    /// The entry point's name, as raw UTF-8 bytes.
    pub name: Vec<u8>,
    /// The execution model the entry point is declared for.
    pub execution_model: ExecutionModel,
    /// The requirements imposed on each descriptor binding, keyed by
    /// `spec_binding_key` of the set and binding.
    pub descriptor_binding_requirements: KeyMap<DescriptorBindingRequirements>,
    /// The push-constant byte range the entry point uses, if any.
    pub push_constant_requirements: Option<PushConstantRange>,
    /// The input interface at the stage boundary.
    pub input_interface: ShaderInterface,
    /// The output interface at the stage boundary.
    pub output_interface: ShaderInterface,
}

/// The mathematical content of an entry point's information.
#[verifier::ext_equal]
pub struct EntryPointInfoView {
    pub name: Seq<u8>,
    pub execution_model: ExecutionModel,
    pub descriptor_binding_requirements: Map<u64, DescriptorBindingRequirementsView>,
    pub push_constant_requirements: Option<PushConstantRange>,
    pub input_interface: Seq<ShaderInterfaceEntryView>,
    pub output_interface: Seq<ShaderInterfaceEntryView>,
}

impl View for EntryPointInfo {
    type V = EntryPointInfoView;

    open spec fn view(&self) -> EntryPointInfoView {
        EntryPointInfoView {
            name: self.name@,
            execution_model: self.execution_model,
            descriptor_binding_requirements: spec_bindings_view(
                self.descriptor_binding_requirements,
            ),
            push_constant_requirements: self.push_constant_requirements,
            input_interface: self.input_interface@,
            output_interface: self.output_interface@,
        }
    }
}

impl EntryPointInfo {
    /// The contained tables and interfaces are well formed.
    pub open spec fn wf(self) -> bool {
        &&& self.descriptor_binding_requirements.wf()
        &&& forall|k: u64|
            self.descriptor_binding_requirements@.contains_key(k) ==> (
            #[trigger] self.descriptor_binding_requirements@[k]).wf()
        &&& self.input_interface.locations_in_range()
        &&& self.output_interface.locations_in_range()
    }
}

/// The entry point an entry-point instruction declares, together with its
/// reflected information: its name and execution model, the descriptor
/// bindings and push-constant range imposed by the instructions its
/// function can reach, and the input and output interfaces named in its
/// interface list. An instruction whose execution model has no stage in a
/// graphics pipeline, or whose name never terminates, declares nothing.
pub open spec fn spec_reflect_entry_point(
    insts: Seq<InstructionView>,
    inst: InstructionView,
) -> Option<(u32, EntryPointInfoView)> {
    if inst.opcode == OP_ENTRY_POINT && inst.operands.len() >= 2 {
        match spec_execution_model(inst.operands[0]) {
            Some(em) => match spec_stage_of_execution_model(em) {
                Some(stage) => match spec_take_string(inst.operands, 2) {
                    Some((name, after)) => {
                        let fn_id = inst.operands[1];
                        let funcs = spec_entry_functions(insts, fn_id);
                        let idxs = spec_entry_indexes(insts, funcs);
                        let iface = inst.operands.skip(after);
                        let sb = stage.spec_bit();
                        Some(
                            (
                                fn_id,
                                EntryPointInfoView {
                                    name,
                                    execution_model: em,
                                    descriptor_binding_requirements: spec_binding_requirements(
                                        insts,
                                        idxs,
                                        iface,
                                        sb,
                                    ),
                                    push_constant_requirements: spec_push_constant_range(
                                        insts,
                                        idxs,
                                        iface,
                                        sb,
                                    ),
                                    input_interface: spec_interface_entries(
                                        insts,
                                        inst.operands,
                                        after,
                                        STORAGE_INPUT,
                                    ),
                                    output_interface: spec_interface_entries(
                                        insts,
                                        inst.operands,
                                        after,
                                        STORAGE_OUTPUT,
                                    ),
                                },
                            ),
                        )
                    },
                    None => None,
                },
                None => None,
            },
            None => None,
        }
    } else {
        None
    }
}

/// A decoded string ends within the operands, past where it started.
proof fn lemma_take_string_end(ops: Seq<u32>, i: int)
    requires
        spec_take_string(ops, i) is Some,
    ensures
        i < spec_take_string(ops, i)->Some_0.1 <= ops.len(),
    decreases ops.len() - i,
{
    if !(i < 0 || i >= ops.len()) {
        let bs = crate::spirv::spec_word_bytes(ops[i]);
        if !(crate::spirv::spec_first_zero(bs) < 4) {
            lemma_take_string_end(ops, i + 1);
        }
    }
}

/// The entry point an entry-point instruction declares.
fn reflect_entry_point(spirv: &Spirv, inst: &Instruction) -> (r: Option<(u32, EntryPointInfo)>)
    requires
        spirv.wf(),
    ensures
        match r {
            Some(p) => spec_reflect_entry_point(spirv@.instructions, inst@) == Some((p.0, p.1@))
                && p.1.wf(),
            None => spec_reflect_entry_point(spirv@.instructions, inst@) is None,
        },
{
    let ghost iv = spirv@.instructions;
    if !(inst.opcode == OP_ENTRY_POINT && inst.operands.len() >= 2) {
        return None;
    }
    match ExecutionModel::from_word(inst.operands[0]) {
        Some(em) => {
            if em == ExecutionModel::Kernel {
                return None;
            }
            let stage = ShaderStage::of_execution_model(em);
            match take_string(&inst.operands, 2) {
                Some((name, after)) => {
                    let fn_id = inst.operands[1];
                    let funcs = reached_functions(spirv, fn_id);
                    let idxs = entry_indexes(spirv, &funcs);
                    proof {
                        lemma_take_string_end(inst.operands@, 2);
                    }
                    let mut iface: Vec<u32> = Vec::new();
                    let on = inst.operands.len();
                    let mut oi: usize = after;
                    while oi < on
                        invariant
                            on == inst.operands@.len(),
                            after <= oi <= on,
                            iface@ == inst.operands@.skip(after as int).take(oi - after),
                        decreases on - oi,
                    {
                        iface.push(inst.operands[oi]);
                        proof {
                            assert(iface@ =~= inst.operands@.skip(after as int).take(
                                oi + 1 - after,
                            ));
                        }
                        oi = oi + 1;
                    }
                    proof {
                        assert(iface@ =~= inst.operands@.skip(after as int));
                    }
                    let sb = stage.bit();
                    let descriptor_binding_requirements = binding_requirements(
                        spirv,
                        &idxs,
                        &iface,
                        sb,
                    );
                    let push_constant_requirements = push_constant_range(spirv, &idxs, &iface, sb);
                    let input_interface = build_interface(
                        spirv,
                        &inst.operands,
                        after,
                        STORAGE_INPUT,
                    );
                    let output_interface = build_interface(
                        spirv,
                        &inst.operands,
                        after,
                        STORAGE_OUTPUT,
                    );
                    let info = EntryPointInfo {
                        name,
                        execution_model: em,
                        descriptor_binding_requirements,
                        push_constant_requirements,
                        input_interface,
                        output_interface,
                    };
                    proof {
                        assert(info@ =~= spec_reflect_entry_point(iv, inst@)->Some_0.1);
                    }
                    Some((fn_id, info))
                },
                None => None,
            }
        },
        None => None,
    }
}

/// The entry points the first `n` instructions declare, in stream order.
pub open spec fn spec_entry_points_upto(insts: Seq<InstructionView>, n: int) -> Seq<
    (u32, EntryPointInfoView),
>
    decreases n,
{
    if n <= 0 {
        Seq::empty()
    } else {
        spec_entry_points_upto(insts, n - 1) + (match spec_reflect_entry_point(
            insts,
            insts[n - 1],
        ) {
            Some(p) => seq![p],
            None => Seq::<(u32, EntryPointInfoView)>::empty(),
        })
    }
}

/// The entry points a module declares, in stream order, each with its
/// reflected information.
pub open spec fn spec_entry_points(insts: Seq<InstructionView>) -> Seq<
    (u32, EntryPointInfoView),
> {
    spec_entry_points_upto(insts, insts.len() as int)
}

/// Walks a module's entry-point instructions and reflects each entry point.
pub fn entry_points(spirv: &Spirv) -> (r: Vec<(u32, EntryPointInfo)>)
    requires
        spirv.wf(),
    ensures
        r@.map_values(|p: (u32, EntryPointInfo)| (p.0, p.1@)) == spec_entry_points(
            spirv@.instructions,
        ),
        forall|i: int| 0 <= i < r@.len() ==> (#[trigger] r@[i]).1.wf(),
{
    let ghost iv = spirv@.instructions;
    let mut r: Vec<(u32, EntryPointInfo)> = Vec::new();
    let n = spirv.len();
    let mut i: usize = 0;
    proof {
        assert(r@.map_values(|p: (u32, EntryPointInfo)| (p.0, p.1@)) =~= Seq::<
            (u32, EntryPointInfoView),
        >::empty());
    }
    while i < n
        invariant
            iv == spirv@.instructions,
            spirv.wf(),
            n == iv.len(),
            i <= n,
            r@.map_values(|p: (u32, EntryPointInfo)| (p.0, p.1@)) == spec_entry_points_upto(
                iv,
                i as int,
            ),
            forall|t: int| 0 <= t < r@.len() ==> (#[trigger] r@[t]).1.wf(),
        decreases n - i,
    {
        let ghost pre = r@.map_values(|p: (u32, EntryPointInfo)| (p.0, p.1@));
        let inst = spirv.inst_at(i);
        match reflect_entry_point(spirv, inst) {
            Some(p) => {
                r.push(p);
                proof {
                    assert(r@.map_values(|p: (u32, EntryPointInfo)| (p.0, p.1@))
                        =~= spec_entry_points_upto(iv, i as int + 1));
                }
            },
            None => {
                proof {
                    assert(pre + Seq::<(u32, EntryPointInfoView)>::empty() =~= pre);
                }
            },
        }
        i = i + 1;
    }
    r
}

/// Whether a pointer result is an image texel pointer, which marks atomic
/// access to a storage image.
pub open spec fn spec_through_texel_pointer(insts: Seq<InstructionView>, id: u32) -> bool {
    match spec_def(insts, id) {
        Some(d) => d.opcode == OP_IMAGE_TEXEL_POINTER,
        None => false,
    }
}

/// Whether a pointer result is an image texel pointer.
fn through_texel_pointer(spirv: &Spirv, id: u32) -> (r: bool)
    requires
        spirv.wf(),
    ensures
        r == spec_through_texel_pointer(spirv@.instructions, id),
{
    match spirv.def(id) {
        Some(d) => d.opcode == OP_IMAGE_TEXEL_POINTER,
        None => false,
    }
}

/// How one instruction uses the descriptor bound to variable `rid`.
fn apply_usage(
    spirv: &Spirv,
    inst: &Instruction,
    rid: u32,
    arrayed: bool,
    stage_bits: u32,
    m: &mut KeyMap<DescriptorRequirements>,
)
    requires
        spirv.wf(),
        old(m).wf(),
    ensures
        final(m).wf(),
        spec_descriptors_view(*final(m)) == spec_apply_usage(
            spirv@.instructions,
            inst@,
            rid,
            arrayed,
            stage_bits,
            spec_descriptors_view(*old(m)),
        ),
{
    let fuel = spirv.len();
    if inst.opcode == OP_LOAD && inst.operands.len() >= 3 {
        match trace_pointer(spirv, inst.operands[2], fuel) {
            Some((v, ci)) => {
                if v == rid {
                    let key = index_key(desc_index(arrayed, ci));
                    touch(m, key, true, false, false, false, false, false, None, stage_bits);
                }
            },
            None => {},
        }
    } else if inst.opcode == OP_STORE && inst.operands.len() >= 1 {
        match trace_pointer(spirv, inst.operands[0], fuel) {
            Some((v, ci)) => {
                if v == rid {
                    let key = index_key(desc_index(arrayed, ci));
                    touch(m, key, false, true, false, false, false, false, None, stage_bits);
                }
            },
            None => {},
        }
    } else if (inst.opcode == OP_ATOMIC_LOAD || (OP_ATOMIC_EXCHANGE <= inst.opcode && inst.opcode
        <= OP_ATOMIC_XOR)) && inst.operands.len() >= 3 {
        match trace_pointer(spirv, inst.operands[2], fuel) {
            Some((v, ci)) => {
                if v == rid {
                    let key = index_key(desc_index(arrayed, ci));
                    let atomic = through_texel_pointer(spirv, inst.operands[2]);
                    touch(
                        m,
                        key,
                        true,
                        inst.opcode != OP_ATOMIC_LOAD,
                        atomic,
                        false,
                        false,
                        false,
                        None,
                        stage_bits,
                    );
                }
            },
            None => {},
        }
    } else if inst.opcode == OP_ATOMIC_STORE && inst.operands.len() >= 1 {
        match trace_pointer(spirv, inst.operands[0], fuel) {
            Some((v, ci)) => {
                if v == rid {
                    let key = index_key(desc_index(arrayed, ci));
                    let atomic = through_texel_pointer(spirv, inst.operands[0]);
                    touch(m, key, false, true, atomic, false, false, false, None, stage_bits);
                }
            },
            None => {},
        }
    } else if inst.opcode == OP_IMAGE_WRITE && inst.operands.len() >= 1 {
        match trace_value(spirv, inst.operands[0], fuel) {
            Some(TracedValue::Variable { var: v, index: ci }) => {
                if v == rid {
                    let key = index_key(desc_index(arrayed, ci));
                    touch(m, key, false, true, false, false, false, false, None, stage_bits);
                }
            },
            _ => {},
        }
    } else if (inst.opcode == OP_IMAGE_READ || inst.opcode == OP_IMAGE_FETCH)
        && inst.operands.len() >= 3 {
        match trace_value(spirv, inst.operands[2], fuel) {
            Some(TracedValue::Variable { var: v, index: ci }) => {
                if v == rid {
                    let key = index_key(desc_index(arrayed, ci));
                    touch(m, key, true, false, false, false, false, false, None, stage_bits);
                }
            },
            _ => {},
        }
    } else if ((OP_IMAGE_SAMPLE_IMPLICIT_LOD <= inst.opcode && inst.opcode
        <= OP_IMAGE_SAMPLE_PROJ_DREF_EXPLICIT_LOD) || inst.opcode == OP_IMAGE_GATHER || inst.opcode
        == OP_IMAGE_DREF_GATHER) && inst.operands.len() >= 3 {
        let dref = inst.opcode == 89 || inst.opcode == 90 || inst.opcode == 93 || inst.opcode == 94
            || inst.opcode == OP_IMAGE_DREF_GATHER;
        let implicit_or_proj = inst.opcode == 87 || inst.opcode == 89 || inst.opcode == 91
            || inst.opcode == 92 || inst.opcode == 93 || inst.opcode == 94;
        let mask = image_operand_mask(inst);
        let bias = mask % 2 == 1;
        let offset = (mask / 8) % 2 == 1 || (mask / 16) % 2 == 1;
        let gather = inst.opcode == OP_IMAGE_GATHER || inst.opcode == OP_IMAGE_DREF_GATHER;
        let no_unnorm = implicit_or_proj || dref || bias || offset;
        let no_ycbcr = gather || offset;
        match trace_value(spirv, inst.operands[2], fuel) {
            Some(TracedValue::Variable { var: v, index: ci }) => {
                if v == rid {
                    let key = index_key(desc_index(arrayed, ci));
                    touch(m, key, true, false, false, dref, no_unnorm, no_ycbcr, None, stage_bits);
                }
            },
            Some(
                TracedValue::SampledPair {
                    image: img,
                    image_index: ii,
                    sampler: smp,
                    sampler_index: si,
                },
            ) => {
                if img == rid {
                    let key = index_key(desc_index(arrayed, ii));
                    touch(m, key, true, false, false, false, false, false, None, stage_bits);
                }
                if smp == rid {
                    let set = match spirv.decoration_value(img, DECORATION_DESCRIPTOR_SET) {
                        Some(v) => v,
                        None => 0,
                    };
                    let binding = match spirv.decoration_value(img, DECORATION_BINDING) {
                        Some(v) => v,
                        None => 0,
                    };
                    let index = match ii {
                        ChainIndex::Fixed(c) => c,
                        _ => 0,
                    };
                    let p = DescriptorIdentifier { set, binding, index };
                    let key = index_key(desc_index(arrayed, si));
                    touch(
                        m,
                        key,
                        false,
                        false,
                        false,
                        dref,
                        no_unnorm,
                        no_ycbcr,
                        Some(p),
                        stage_bits,
                    );
                }
            },
            None => {},
        }
    }
}

} // verus!

