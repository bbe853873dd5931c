//! The instruction decoder: parses a flat sequence of 32-bit words into a
//! navigable set of instructions plus side tables (an ID table and flat
//! lists of the declared capabilities and extensions).
//!
//! Decoding is purely structural: unknown opcodes are retained as opaque
//! instructions, so reflection can skip what it does not need without
//! failing the whole parse.

use vstd::prelude::*;

use crate::idmap::KeyMap;

verus! {

pub const OP_NAME: u16 = 5;
pub const OP_EXTENSION: u16 = 10;
pub const OP_ENTRY_POINT: u16 = 15;
pub const OP_EXECUTION_MODE: u16 = 16;
pub const OP_CAPABILITY: u16 = 17;
pub const OP_TYPE_VOID: u16 = 19;
pub const OP_TYPE_BOOL: u16 = 20;
pub const OP_TYPE_INT: u16 = 21;
pub const OP_TYPE_FLOAT: u16 = 22;
pub const OP_TYPE_VECTOR: u16 = 23;
pub const OP_TYPE_MATRIX: u16 = 24;
pub const OP_TYPE_IMAGE: u16 = 25;
pub const OP_TYPE_SAMPLER: u16 = 26;
pub const OP_TYPE_SAMPLED_IMAGE: u16 = 27;
pub const OP_TYPE_ARRAY: u16 = 28;
pub const OP_TYPE_RUNTIME_ARRAY: u16 = 29;
pub const OP_TYPE_STRUCT: u16 = 30;
pub const OP_TYPE_POINTER: u16 = 32;
pub const OP_TYPE_FUNCTION: u16 = 33;
pub const OP_CONSTANT_TRUE: u16 = 41;
pub const OP_CONSTANT_FALSE: u16 = 42;
pub const OP_CONSTANT: u16 = 43;
pub const OP_CONSTANT_COMPOSITE: u16 = 44;
pub const OP_CONSTANT_SAMPLER: u16 = 45;
pub const OP_CONSTANT_NULL: u16 = 46;
pub const OP_SPEC_CONSTANT_TRUE: u16 = 48;
pub const OP_SPEC_CONSTANT_FALSE: u16 = 49;
pub const OP_SPEC_CONSTANT: u16 = 50;
pub const OP_SPEC_CONSTANT_COMPOSITE: u16 = 51;
pub const OP_SPEC_CONSTANT_OP: u16 = 52;
pub const OP_FUNCTION: u16 = 54;
pub const OP_FUNCTION_PARAMETER: u16 = 55;
pub const OP_FUNCTION_END: u16 = 56;
pub const OP_FUNCTION_CALL: u16 = 57;
pub const OP_VARIABLE: u16 = 59;
pub const OP_IMAGE_TEXEL_POINTER: u16 = 60;
pub const OP_LOAD: u16 = 61;
pub const OP_STORE: u16 = 62;
pub const OP_ACCESS_CHAIN: u16 = 65;
pub const OP_IN_BOUNDS_ACCESS_CHAIN: u16 = 66;
pub const OP_PTR_ACCESS_CHAIN: u16 = 67;
pub const OP_DECORATE: u16 = 71;
pub const OP_MEMBER_DECORATE: u16 = 72;
pub const OP_COPY_OBJECT: u16 = 83;
pub const OP_BITCAST: u16 = 124;
pub const OP_SAMPLED_IMAGE: u16 = 86;
pub const OP_IMAGE_SAMPLE_IMPLICIT_LOD: u16 = 87;
pub const OP_IMAGE_SAMPLE_EXPLICIT_LOD: u16 = 88;
pub const OP_IMAGE_SAMPLE_DREF_IMPLICIT_LOD: u16 = 89;
pub const OP_IMAGE_SAMPLE_DREF_EXPLICIT_LOD: u16 = 90;
pub const OP_IMAGE_SAMPLE_PROJ_IMPLICIT_LOD: u16 = 91;
pub const OP_IMAGE_SAMPLE_PROJ_EXPLICIT_LOD: u16 = 92;
pub const OP_IMAGE_SAMPLE_PROJ_DREF_IMPLICIT_LOD: u16 = 93;
pub const OP_IMAGE_SAMPLE_PROJ_DREF_EXPLICIT_LOD: u16 = 94;
pub const OP_IMAGE_FETCH: u16 = 95;
pub const OP_IMAGE_GATHER: u16 = 96;
pub const OP_IMAGE_DREF_GATHER: u16 = 97;
pub const OP_IMAGE_READ: u16 = 98;
pub const OP_IMAGE_WRITE: u16 = 99;
pub const OP_ATOMIC_LOAD: u16 = 227;
pub const OP_ATOMIC_STORE: u16 = 228;
pub const OP_ATOMIC_EXCHANGE: u16 = 229;
pub const OP_ATOMIC_XOR: u16 = 242;

/// The fixed magic number that opens a binary module.
pub const MAGIC_NUMBER: u32 = 0x0723_0203;

pub const DECORATION_SPEC_ID: u32 = 1;
pub const DECORATION_BLOCK: u32 = 2;
pub const DECORATION_BUFFER_BLOCK: u32 = 3;
pub const DECORATION_BUILT_IN: u32 = 11;
pub const DECORATION_ARRAY_STRIDE: u32 = 6;
pub const DECORATION_LOCATION: u32 = 30;
pub const DECORATION_COMPONENT: u32 = 31;
pub const DECORATION_INDEX: u32 = 32;
pub const DECORATION_BINDING: u32 = 33;
pub const DECORATION_DESCRIPTOR_SET: u32 = 34;
pub const DECORATION_OFFSET: u32 = 35;

/// One decoded instruction: its opcode and the operand words that follow
/// the leading opcode/word-count word.
#[derive(Debug)]
pub struct Instruction {
    pub opcode: u16,
    pub operands: Vec<u32>,
}

/// The mathematical content of an instruction.
#[verifier::ext_equal]
pub struct InstructionView {
    pub opcode: u16,
    pub operands: Seq<u32>,
}

impl View for Instruction {
    type V = InstructionView;

    open spec fn view(&self) -> InstructionView {
        InstructionView { opcode: self.opcode, operands: self.operands@ }
    }
}

impl Instruction {
    /// An independent copy.
    pub fn duplicate(&self) -> (r: Instruction)
        ensures
            r@ == self@,
    {
        let mut operands: Vec<u32> = Vec::new();
        let n = self.operands.len();
        let mut i: usize = 0;
        while i < n
            invariant
                n == self.operands@.len(),
                i <= n,
                operands@ == self.operands@.subrange(0, i as int),
            decreases n - i,
        {
            operands.push(self.operands[i]);
            proof {
                assert(operands@ =~= self.operands@.subrange(0, i as int + 1));
            }
            i = i + 1;
        }
        proof {
            assert(operands@ =~= self.operands@);
        }
        let r = Instruction { opcode: self.opcode, operands };
        proof {
            assert(r@ =~= self@);
        }
        r
    }
}

/// A version of the binary format, taken from the header word.
#[derive(Clone, Copy, Debug, PartialEq, Eq, Structural)]
pub struct Version {
    pub major: u32,
    pub minor: u32,
}

/// Why a word stream could not be decoded.
#[derive(Clone, Copy, Debug, PartialEq, Eq, Structural)]
pub enum DecodeError {
    /// The stream is shorter than the five-word header.
    MissingHeader,
    /// The first word is not the magic number.
    MismatchedMagicNumber,
    /// The header names a major version this decoder does not know.
    UnsupportedMajorVersion { major: u32 },
    /// The header's schema word is not zero.
    MismatchedSchema { schema: u32 },
    /// The instruction at this word offset declares a word count of zero.
    ZeroWordCountInstruction { offset: usize },
    /// The instruction at this word offset runs past the end of the stream.
    TruncatedInstruction { offset: usize },
}

/// The views of a vector of instructions.
pub open spec fn spec_insts_view(v: Vec<Instruction>) -> Seq<InstructionView> {
    v@.map_values(|i: Instruction| i@)
}

/// The result ID an instruction defines, for the instruction families that
/// reflection needs to resolve. Type declarations carry their result first;
/// value-producing instructions carry a result type first and the result
/// second. Other opcodes are treated as defining nothing.
pub open spec fn spec_result_id(inst: InstructionView) -> Option<u32> {
    let op = inst.opcode;
    if (OP_TYPE_VOID <= op && op <= OP_TYPE_STRUCT) || op == OP_TYPE_POINTER || op
        == OP_TYPE_FUNCTION {
        if inst.operands.len() >= 1 {
            Some(inst.operands[0])
        } else {
            None
        }
    } else if (OP_CONSTANT_TRUE <= op && op <= OP_CONSTANT_NULL) || (OP_SPEC_CONSTANT_TRUE <= op
        && op <= OP_SPEC_CONSTANT_OP) || op == OP_FUNCTION || op == OP_FUNCTION_PARAMETER || op
        == OP_FUNCTION_CALL || op == OP_VARIABLE || op == OP_IMAGE_TEXEL_POINTER || op == OP_LOAD
        || op == OP_ACCESS_CHAIN || op == OP_IN_BOUNDS_ACCESS_CHAIN || op == OP_PTR_ACCESS_CHAIN
        || op == OP_COPY_OBJECT || op == OP_BITCAST || op == OP_SAMPLED_IMAGE || (
    OP_IMAGE_SAMPLE_IMPLICIT_LOD <= op && op <= OP_IMAGE_READ) || op == OP_ATOMIC_LOAD || (
    OP_ATOMIC_EXCHANGE <= op && op <= OP_ATOMIC_XOR) {
        if inst.operands.len() >= 2 {
            Some(inst.operands[1])
        } else {
            None
        }
    } else {
        None
    }
}

/// The result ID an instruction defines, if any.
pub fn result_id(inst: &Instruction) -> (r: Option<u32>)
    ensures
        r == spec_result_id(inst@),
{
    let op = inst.opcode;
    if (OP_TYPE_VOID <= op && op <= OP_TYPE_STRUCT) || op == OP_TYPE_POINTER || op
        == OP_TYPE_FUNCTION {
        if inst.operands.len() >= 1 {
            Some(inst.operands[0])
        } else {
            None
        }
    } else if (OP_CONSTANT_TRUE <= op && op <= OP_CONSTANT_NULL) || (OP_SPEC_CONSTANT_TRUE <= op
        && op <= OP_SPEC_CONSTANT_OP) || op == OP_FUNCTION || op == OP_FUNCTION_PARAMETER || op
        == OP_FUNCTION_CALL || op == OP_VARIABLE || op == OP_IMAGE_TEXEL_POINTER || op == OP_LOAD
        || op == OP_ACCESS_CHAIN || op == OP_IN_BOUNDS_ACCESS_CHAIN || op == OP_PTR_ACCESS_CHAIN
        || op == OP_COPY_OBJECT || op == OP_BITCAST || op == OP_SAMPLED_IMAGE || (
    OP_IMAGE_SAMPLE_IMPLICIT_LOD <= op && op <= OP_IMAGE_READ) || op == OP_ATOMIC_LOAD || (
    OP_ATOMIC_EXCHANGE <= op && op <= OP_ATOMIC_XOR) {
        if inst.operands.len() >= 2 {
            Some(inst.operands[1])
        } else {
            None
        }
    } else {
        None
    }
}

/// The ID table of an instruction sequence: each defined result ID maps to
/// the index of its defining instruction; a later definition of the same ID
/// replaces an earlier one.
pub open spec fn spec_id_table(insts: Seq<InstructionView>) -> Map<u64, int>
    decreases insts.len(),
{
    if insts.len() == 0 {
        Map::empty()
    } else {
        let m = spec_id_table(insts.drop_last());
        match spec_result_id(insts.last()) {
            Some(id) => m.insert(id as u64, insts.len() - 1),
            None => m,
        }
    }
}

/// Every index the ID table holds points into the sequence.
pub proof fn lemma_id_table_indexes(insts: Seq<InstructionView>)
    ensures
        forall|k: u64|
            spec_id_table(insts).contains_key(k) ==> 0 <= #[trigger] spec_id_table(insts)[k]
                < insts.len(),
    decreases insts.len(),
{
    if insts.len() > 0 {
        lemma_id_table_indexes(insts.drop_last());
        assert forall|k: u64| spec_id_table(insts).contains_key(k) implies 0 <= #[trigger]
        spec_id_table(insts)[k] < insts.len() by {
            match spec_result_id(insts.last()) {
                Some(id) => {
                    if k != id as u64 {
                        assert(spec_id_table(insts.drop_last()).contains_key(k));
                    }
                },
                None => {
                    assert(spec_id_table(insts) == spec_id_table(insts.drop_last()));
                },
            }
        }
    }
}

/// The capability operands of the capability instructions, in stream order.
pub open spec fn spec_capabilities(insts: Seq<InstructionView>) -> Seq<u32>
    decreases insts.len(),
{
    if insts.len() == 0 {
        Seq::empty()
    } else {
        spec_capabilities(insts.drop_last()) + (if insts.last().opcode == OP_CAPABILITY
            && insts.last().operands.len() >= 1 {
            seq![insts.last().operands[0]]
        } else {
            Seq::empty()
        })
    }
}

/// The four bytes of a word, least significant first.
pub open spec fn spec_word_bytes(w: u32) -> Seq<u8> {
    seq![
        (w % 0x100) as u8,
        ((w / 0x100) % 0x100) as u8,
        ((w / 0x1_0000) % 0x100) as u8,
        ((w / 0x100_0000) % 0x100) as u8,
    ]
}

/// The index of the first zero byte of a word's four bytes, or 4.
pub open spec fn spec_first_zero(bs: Seq<u8>) -> int {
    if bs[0] == 0 {
        0
    } else if bs[1] == 0 {
        1
    } else if bs[2] == 0 {
        2
    } else if bs[3] == 0 {
        3
    } else {
        4
    }
}

/// Decodes the nul-terminated string that starts at operand `i`: the bytes
/// before the terminator, and the operand index just after the string.
/// `None` if the operands end before a terminator appears.
pub open spec fn spec_take_string(ops: Seq<u32>, i: int) -> Option<(Seq<u8>, int)>
    decreases ops.len() - i,
{
    if i < 0 || i >= ops.len() {
        None
    } else {
        let bs = spec_word_bytes(ops[i]);
        let z = spec_first_zero(bs);
        if z < 4 {
            Some((bs.take(z), i + 1))
        } else {
            match spec_take_string(ops, i + 1) {
                None => None,
                Some((rest, j)) => Some((bs + rest, j)),
            }
        }
    }
}

/// Decodes the nul-terminated string that starts at operand `i`.
pub fn take_string(ops: &Vec<u32>, i: usize) -> (r: Option<(Vec<u8>, usize)>)
    ensures
        match r {
            Some((bytes, j)) => spec_take_string(ops@, i as int) == Some((bytes@, j as int)),
            None => spec_take_string(ops@, i as int) is None,
        },
    decreases ops@.len() - i,
{
    if i >= ops.len() {
        return None;
    }
    let w = ops[i];
    let b0 = (w % 0x100) as u8;
    let b1 = ((w / 0x100) % 0x100) as u8;
    let b2 = ((w / 0x1_0000) % 0x100) as u8;
    let b3 = (w / 0x100_0000) as u8;
    proof {
        assert(w / 0x100_0000 < 0x100);
        assert(spec_word_bytes(w) == seq![b0, b1, b2, b3]);
    }
    let mut bytes: Vec<u8> = Vec::new();
    if b0 == 0 {
        proof {
            assert(bytes@ =~= spec_word_bytes(w).take(0));
        }
        return Some((bytes, i + 1));
    }
    bytes.push(b0);
    if b1 == 0 {
        proof {
            assert(bytes@ =~= spec_word_bytes(w).take(1));
        }
        return Some((bytes, i + 1));
    }
    bytes.push(b1);
    if b2 == 0 {
        proof {
            assert(bytes@ =~= spec_word_bytes(w).take(2));
        }
        return Some((bytes, i + 1));
    }
    bytes.push(b2);
    if b3 == 0 {
        proof {
            assert(bytes@ =~= spec_word_bytes(w).take(3));
        }
        return Some((bytes, i + 1));
    }
    bytes.push(b3);
    match take_string(ops, i + 1) {
        None => None,
        Some((rest, j)) => {
            let mut all = bytes;
            let mut k: usize = 0;
            let n = rest.len();
            while k < n
                invariant
                    n == rest@.len(),
                    k <= n,
                    all@ == seq![b0, b1, b2, b3] + rest@.subrange(0, k as int),
                decreases n - k,
            {
                all.push(rest[k]);
                proof {
                    assert(all@ =~= seq![b0, b1, b2, b3] + rest@.subrange(0, k as int + 1));
                }
                k = k + 1;
            }
            proof {
                assert(all@ =~= spec_word_bytes(w) + rest@);
            }
            Some((all, j))
        },
    }
}

/// The names of the extension instructions, in stream order. An extension
/// instruction without a terminated name contributes nothing.
pub open spec fn spec_extensions(insts: Seq<InstructionView>) -> Seq<Seq<u8>>
    decreases insts.len(),
{
    if insts.len() == 0 {
        Seq::empty()
    } else {
        spec_extensions(insts.drop_last()) + (if insts.last().opcode == OP_EXTENSION {
            match spec_take_string(insts.last().operands, 0) {
                Some((name, _)) => seq![name],
                None => Seq::empty(),
            }
        } else {
            Seq::empty()
        })
    }
}

/// Parses the instructions of `words` from word offset `p` on: each
/// instruction's first word carries its opcode in the low half and its total
/// word count in the high half; the count must be at least one and must not
/// run past the end of the stream.
pub open spec fn spec_parse_instructions(words: Seq<u32>, p: int) -> Result<
    Seq<InstructionView>,
    DecodeError,
>
    decreases words.len() - p,
{
    if p < 0 || p >= words.len() {
        Ok(Seq::empty())
    } else {
        let w = words[p];
        let wc = (w / 0x1_0000) as int;
        if wc == 0 {
            Err(DecodeError::ZeroWordCountInstruction { offset: p as usize })
        } else if p + wc > words.len() {
            Err(DecodeError::TruncatedInstruction { offset: p as usize })
        } else {
            match spec_parse_instructions(words, p + wc) {
                Err(e) => Err(e),
                Ok(rest) => Ok(
                    seq![
                        InstructionView {
                            opcode: (w % 0x1_0000) as u16,
                            operands: words.subrange(p + 1, p + wc),
                        },
                    ] + rest,
                ),
            }
        }
    }
}

/// The mathematical content of a decoded module.
#[verifier::ext_equal]
pub struct SpirvView {
    pub version: Version,
    pub bound: u32,
    pub instructions: Seq<InstructionView>,
}

/// What decoding a word stream produces: the header is validated (magic
/// number, known major version, schema zero), then the instruction stream is
/// parsed to its end.
pub open spec fn spec_decode(words: Seq<u32>) -> Result<SpirvView, DecodeError> {
    if words.len() < 5 {
        Err(DecodeError::MissingHeader)
    } else if words[0] != MAGIC_NUMBER {
        Err(DecodeError::MismatchedMagicNumber)
    } else if (words[1] / 0x1_0000) % 0x100 != 1 {
        Err(DecodeError::UnsupportedMajorVersion { major: ((words[1] / 0x1_0000) % 0x100) as u32 })
    } else if words[4] != 0 {
        Err(DecodeError::MismatchedSchema { schema: words[4] })
    } else {
        match spec_parse_instructions(words, 5) {
            Err(e) => Err(e),
            Ok(insts) => Ok(
                SpirvView {
                    version: Version {
                        major: ((words[1] / 0x1_0000) % 0x100) as u32,
                        minor: ((words[1] / 0x100) % 0x100) as u32,
                    },
                    bound: words[3],
                    instructions: insts,
                },
            ),
        }
    }
}

/// A decoded module: the instruction sequence and the side tables built
/// while iterating it. Immutable once decoded; specialization produces a
/// new, independently owned copy.
#[derive(Debug)]
pub struct Spirv {
    version: Version,
    bound: u32,
    instructions: Vec<Instruction>,
    ids: KeyMap<usize>,
    capabilities: Vec<u32>,
    extensions: Vec<Vec<u8>>,
}

impl View for Spirv {
    type V = SpirvView;

    closed spec fn view(&self) -> SpirvView {
        SpirvView {
            version: self.version,
            bound: self.bound,
            instructions: spec_insts_view(self.instructions),
        }
    }
}

impl Spirv {
    /// The side tables agree with the instruction stream.
    pub closed spec fn wf(self) -> bool {
        &&& self.ids.wf()
        &&& self.ids@.map_values(|i: usize| i as int) == spec_id_table(self@.instructions)
        &&& self.capabilities@ == spec_capabilities(self@.instructions)
        &&& self.extensions@.map_values(|v: Vec<u8>| v@) == spec_extensions(self@.instructions)
    }

    /// The version named in the header.
    pub fn version(&self) -> (r: Version)
        ensures
            r == self@.version,
    {
        self.version
    }

    /// The ID bound named in the header.
    pub fn bound(&self) -> (r: u32)
        ensures
            r == self@.bound,
    {
        self.bound
    }

    /// The number of instructions.
    pub fn len(&self) -> (r: usize)
        ensures
            r == self@.instructions.len(),
    {
        self.instructions.len()
    }

    /// The instruction at index `i`.
    pub fn inst_at(&self, i: usize) -> (r: &Instruction)
        requires
            i < self@.instructions.len(),
        ensures
            r@ == self@.instructions[i as int],
    {
        &self.instructions[i]
    }

    /// The capability operands of the capability instructions.
    pub fn capabilities(&self) -> (r: &Vec<u32>)
        requires
            self.wf(),
        ensures
            r@ == spec_capabilities(self@.instructions),
    {
        &self.capabilities
    }

    /// The names of the extension instructions.
    pub fn extensions(&self) -> (r: &Vec<Vec<u8>>)
        requires
            self.wf(),
        ensures
            r@.map_values(|v: Vec<u8>| v@) == spec_extensions(self@.instructions),
    {
        &self.extensions
    }

    /// The index of the instruction defining `id`, if any.
    pub fn def_index(&self, id: u32) -> (r: Option<usize>)
        requires
            self.wf(),
        ensures
            match r {
                Some(i) => spec_id_table(self@.instructions).contains_key(id as u64)
                    && spec_id_table(self@.instructions)[id as u64] == i as int && i
                    < self@.instructions.len(),
                None => !spec_id_table(self@.instructions).contains_key(id as u64),
            },
    {
        let r = self.ids.get(id as u64);
        proof {
            lemma_id_table_indexes(self@.instructions);
            assert(self.ids@.map_values(|i: usize| i as int).dom() =~= self.ids@.dom());
        }
        match r {
            Some(i) => {
                proof {
                    assert(self.ids@.map_values(|x: usize| x as int)[id as u64] == *i as int);
                }
                Some(*i)
            },
            None => None,
        }
    }

    /// The instruction defining `id`, if any.
    pub fn def(&self, id: u32) -> (r: Option<&Instruction>)
        requires
            self.wf(),
        ensures
            match r {
                Some(inst) => spec_def(self@.instructions, id) == Some(inst@),
                None => spec_def(self@.instructions, id) is None,
            },
    {
        match self.def_index(id) {
            Some(i) => Some(&self.instructions[i]),
            None => None,
        }
    }

    /// Decodes a word stream: validates the five-word header, parses the
    /// instructions, and builds the side tables.
    pub fn new(words: &[u32]) -> (r: Result<Spirv, DecodeError>)
        ensures
            match r {
                Ok(g) => spec_decode(words@) == Ok::<SpirvView, DecodeError>(g@) && g.wf(),
                Err(e) => spec_decode(words@) == Err::<SpirvView, DecodeError>(e),
            },
    {
        if words.len() < 5 {
            return Err(DecodeError::MissingHeader);
        }
        if words[0] != MAGIC_NUMBER {
            return Err(DecodeError::MismatchedMagicNumber);
        }
        let major = (words[1] / 0x1_0000) % 0x100;
        let minor = (words[1] / 0x100) % 0x100;
        if major != 1 {
            return Err(DecodeError::UnsupportedMajorVersion { major });
        }
        if words[4] != 0 {
            return Err(DecodeError::MismatchedSchema { schema: words[4] });
        }

        // Parse the instruction stream.
        let n = words.len();
        let mut instructions: Vec<Instruction> = Vec::new();
        let mut p: usize = 5;
        while p < n
            invariant
                n == words@.len(),
                5 <= p <= n,
                words@[0] == MAGIC_NUMBER,
                (words@[1] / 0x1_0000) % 0x100 == 1,
                words@[4] == 0,
                spec_parse_instructions(words@, 5) matches Ok(all) ==> (spec_parse_instructions(
                    words@,
                    p as int,
                ) matches Ok(rest) && all == spec_insts_view(instructions) + rest),
                spec_parse_instructions(words@, 5) is Err ==> spec_parse_instructions(
                    words@,
                    p as int,
                ) == spec_parse_instructions(words@, 5),
            decreases n - p,
        {
            let w = words[p];
            let wc = (w / 0x1_0000) as usize;
            if wc == 0 {
                proof {
                    assert(spec_parse_instructions(words@, p as int) == Err::<
                        Seq<InstructionView>,
                        DecodeError,
                    >(DecodeError::ZeroWordCountInstruction { offset: p }));
                    assert(spec_parse_instructions(words@, 5) == spec_parse_instructions(
                        words@,
                        p as int,
                    ));
                    assert(spec_decode(words@) == Err::<SpirvView, DecodeError>(
                        DecodeError::ZeroWordCountInstruction { offset: p },
                    ));
                }
                return Err(DecodeError::ZeroWordCountInstruction { offset: p });
            }
            if wc > n - p {
                proof {
                    assert(spec_parse_instructions(words@, p as int) == Err::<
                        Seq<InstructionView>,
                        DecodeError,
                    >(DecodeError::TruncatedInstruction { offset: p }));
                    assert(spec_parse_instructions(words@, 5) == spec_parse_instructions(
                        words@,
                        p as int,
                    ));
                    assert(spec_decode(words@) == Err::<SpirvView, DecodeError>(
                        DecodeError::TruncatedInstruction { offset: p },
                    ));
                }
                return Err(DecodeError::TruncatedInstruction { offset: p });
            }
            let mut operands: Vec<u32> = Vec::new();
            let mut q: usize = p + 1;
            while q < p + wc
                invariant
                    n == words@.len(),
                    p + wc <= n,
                    p + 1 <= q <= p + wc,
                    operands@ == words@.subrange(p as int + 1, q as int),
                decreases p + wc - q,
            {
                operands.push(words[q]);
                proof {
                    assert(operands@ =~= words@.subrange(p as int + 1, q as int + 1));
                }
                q = q + 1;
            }
            let inst = Instruction { opcode: (w % 0x1_0000) as u16, operands };
            let ghost prev = spec_insts_view(instructions);
            instructions.push(inst);
            proof {
                assert(spec_insts_view(instructions) =~= prev + seq![inst@]);
                if spec_parse_instructions(words@, 5) matches Ok(all) {
                    let rest = spec_parse_instructions(words@, p as int)->Ok_0;
                    let rest2 = spec_parse_instructions(words@, p as int + wc as int)->Ok_0;
                    assert(rest == seq![inst@] + rest2);
                    assert(prev + rest =~= (prev + seq![inst@]) + rest2);
                }
            }
            p = p + wc;
        }
        proof {
            if spec_parse_instructions(words@, 5) is Ok {
                let all = spec_parse_instructions(words@, 5)->Ok_0;
                assert(spec_parse_instructions(words@, p as int) == Ok::<
                    Seq<InstructionView>,
                    DecodeError,
                >(Seq::empty()));
                assert(all =~= spec_insts_view(instructions));
            }
        }

        // Build the side tables.
        let ghost iv = spec_insts_view(instructions);
        let num = instructions.len();
        let mut ids: KeyMap<usize> = KeyMap::new();
        let mut capabilities: Vec<u32> = Vec::new();
        let mut extensions: Vec<Vec<u8>> = Vec::new();
        let mut i: usize = 0;
        proof {
            assert(iv.subrange(0, 0) =~= Seq::<InstructionView>::empty());
            assert(ids@.map_values(|x: usize| x as int) =~= spec_id_table(iv.subrange(0, 0)));
            assert(extensions@.map_values(|v: Vec<u8>| v@) =~= spec_extensions(
                iv.subrange(0, 0),
            ));
        }
        while i < num
            invariant
                num == instructions@.len(),
                i <= num,
                iv == spec_insts_view(instructions),
                iv.len() == num,
                ids.wf(),
                ids@.map_values(|x: usize| x as int) == spec_id_table(iv.subrange(0, i as int)),
                capabilities@ == spec_capabilities(iv.subrange(0, i as int)),
                extensions@.map_values(|v: Vec<u8>| v@) == spec_extensions(
                    iv.subrange(0, i as int),
                ),
            decreases num - i,
        {
            let ghost pre = iv.subrange(0, i as int);
            let ghost post = iv.subrange(0, i as int + 1);
            proof {
                assert(post.drop_last() =~= pre);
                assert(post.last() == iv[i as int]);
                assert(iv[i as int] == instructions@[i as int]@);
            }
            let inst = &instructions[i];
            match result_id(inst) {
                Some(id) => {
                    ids.insert(id as u64, i);
                    proof {
                        assert(ids@.map_values(|x: usize| x as int) =~= spec_id_table(post));
                    }
                },
                None => {
                    proof {
                        assert(ids@.map_values(|x: usize| x as int) =~= spec_id_table(post));
                    }
                },
            }
            if inst.opcode == OP_CAPABILITY && inst.operands.len() >= 1 {
                capabilities.push(inst.operands[0]);
            }
            proof {
                assert(capabilities@ =~= spec_capabilities(post));
            }
            if inst.opcode == OP_EXTENSION {
                match take_string(&inst.operands, 0) {
                    Some((name, _)) => {
                        extensions.push(name);
                    },
                    None => {},
                }
            }
            proof {
                assert(extensions@.map_values(|v: Vec<u8>| v@) =~= spec_extensions(post));
            }
            i = i + 1;
        }
        proof {
            assert(iv.subrange(0, num as int) =~= iv);
        }
        let g = Spirv {
            version: Version { major, minor },
            bound: words[3],
            instructions,
            ids,
            capabilities,
            extensions,
        };
        proof {
            assert(g@ =~= spec_decode(words@)->Ok_0);
        }
        Ok(g)
    }
}

/// The instruction defining `id`, if any.
pub open spec fn spec_def(insts: Seq<InstructionView>, id: u32) -> Option<InstructionView> {
    if spec_id_table(insts).contains_key(id as u64) {
        Some(insts[spec_id_table(insts)[id as u64]])
    } else {
        None
    }
}

/// Whether an instruction decorates `target` with `decoration`.
pub open spec fn spec_is_decoration(inst: InstructionView, target: u32, decoration: u32) -> bool {
    inst.opcode == OP_DECORATE && inst.operands.len() >= 2 && inst.operands[0] == target
        && inst.operands[1] == decoration
}

/// The extra operands of the first instruction decorating `target` with
/// `decoration`, if any.
pub open spec fn spec_find_decoration(
    insts: Seq<InstructionView>,
    target: u32,
    decoration: u32,
) -> Option<Seq<u32>>
    decreases insts.len(),
{
    if insts.len() == 0 {
        None
    } else if spec_is_decoration(insts[0], target, decoration) {
        Some(insts[0].operands.skip(2))
    } else {
        spec_find_decoration(insts.drop_first(), target, decoration)
    }
}

/// Whether `target` carries `decoration`.
pub open spec fn spec_has_decoration(
    insts: Seq<InstructionView>,
    target: u32,
    decoration: u32,
) -> bool {
    spec_find_decoration(insts, target, decoration) is Some
}

/// The value operand of the first `decoration` on `target`, if present.
pub open spec fn spec_decoration_value(
    insts: Seq<InstructionView>,
    target: u32,
    decoration: u32,
) -> Option<u32> {
    match spec_find_decoration(insts, target, decoration) {
        Some(extra) => if extra.len() >= 1 {
            Some(extra[0])
        } else {
            None
        },
        None => None,
    }
}

/// Whether an instruction decorates member `member` of `target` with
/// `decoration`.
pub open spec fn spec_is_member_decoration(
    inst: InstructionView,
    target: u32,
    member: u32,
    decoration: u32,
) -> bool {
    inst.opcode == OP_MEMBER_DECORATE && inst.operands.len() >= 3 && inst.operands[0] == target
        && inst.operands[1] == member && inst.operands[2] == decoration
}

/// The value operand of the first `decoration` on member `member` of
/// `target`, if present.
pub open spec fn spec_member_decoration_value(
    insts: Seq<InstructionView>,
    target: u32,
    member: u32,
    decoration: u32,
) -> Option<u32>
    decreases insts.len(),
{
    if insts.len() == 0 {
        None
    } else if spec_is_member_decoration(insts[0], target, member, decoration) {
        if insts[0].operands.len() >= 4 {
            Some(insts[0].operands[3])
        } else {
            None
        }
    } else {
        spec_member_decoration_value(insts.drop_first(), target, member, decoration)
    }
}

impl Spirv {
    /// The index of the first instruction decorating `target` with
    /// `decoration`, if any.
    fn decoration_index(&self, target: u32, decoration: u32) -> (r: Option<usize>)
        ensures
            match r {
                Some(i) => i < self@.instructions.len() && spec_is_decoration(
                    self@.instructions[i as int],
                    target,
                    decoration,
                ) && spec_find_decoration(self@.instructions, target, decoration) == Some(
                    self@.instructions[i as int].operands.skip(2),
                ),
                None => spec_find_decoration(self@.instructions, target, decoration) is None,
            },
    {
        let ghost iv = self@.instructions;
        let n = self.instructions.len();
        let mut i: usize = 0;
        proof {
            assert(iv.skip(0) =~= iv);
        }
        while i < n
            invariant
                n == iv.len(),
                iv == self@.instructions,
                i <= n,
                spec_find_decoration(iv, target, decoration) == spec_find_decoration(
                    iv.skip(i as int),
                    target,
                    decoration,
                ),
            decreases n - i,
        {
            proof {
                assert(iv.skip(i as int)[0] == iv[i as int]);
                assert(iv.skip(i as int).drop_first() =~= iv.skip(i as int + 1));
            }
            let inst = &self.instructions[i];
            if inst.opcode == OP_DECORATE && inst.operands.len() >= 2 && inst.operands[0] == target
                && inst.operands[1] == decoration {
                return Some(i);
            }
            i = i + 1;
        }
        proof {
            assert(iv.skip(n as int) =~= Seq::<InstructionView>::empty());
        }
        None
    }

    /// Whether `target` carries `decoration`.
    pub fn has_decoration(&self, target: u32, decoration: u32) -> (r: bool)
        ensures
            r == spec_has_decoration(self@.instructions, target, decoration),
    {
        self.decoration_index(target, decoration).is_some()
    }

    /// The value operand of the first `decoration` on `target`, if present.
    pub fn decoration_value(&self, target: u32, decoration: u32) -> (r: Option<u32>)
        ensures
            r == spec_decoration_value(self@.instructions, target, decoration),
    {
        match self.decoration_index(target, decoration) {
            Some(i) => {
                let inst = &self.instructions[i];
                if inst.operands.len() >= 3 {
                    proof {
                        assert(self@.instructions[i as int].operands.skip(2)[0]
                            == self@.instructions[i as int].operands[2]);
                    }
                    Some(inst.operands[2])
                } else {
                    proof {
                        assert(self@.instructions[i as int].operands.skip(2).len() == 0);
                    }
                    None
                }
            },
            None => None,
        }
    }

    /// The value operand of the first `decoration` on member `member` of
    /// `target`, if present.
    pub fn member_decoration_value(&self, target: u32, member: u32, decoration: u32) -> (r: Option<
        u32,
    >)
        ensures
            r == spec_member_decoration_value(self@.instructions, target, member, decoration),
    {
        let ghost iv = self@.instructions;
        let n = self.instructions.len();
        let mut i: usize = 0;
        proof {
            assert(iv.skip(0) =~= iv);
        }
        while i < n
            invariant
                n == iv.len(),
                iv == self@.instructions,
                i <= n,
                spec_member_decoration_value(iv, target, member, decoration)
                    == spec_member_decoration_value(
                    iv.skip(i as int),
                    target,
                    member,
                    decoration,
                ),
            decreases n - i,
        {
            proof {
                assert(iv.skip(i as int)[0] == iv[i as int]);
                assert(iv.skip(i as int).drop_first() =~= iv.skip(i as int + 1));
            }
            let inst = &self.instructions[i];
            if inst.opcode == OP_MEMBER_DECORATE && inst.operands.len() >= 3 && inst.operands[0]
                == target && inst.operands[1] == member && inst.operands[2] == decoration {
                if inst.operands.len() >= 4 {
                    return Some(inst.operands[3]);
                } else {
                    return None;
                }
            }
            i = i + 1;
        }
        proof {
            assert(iv.skip(n as int) =~= Seq::<InstructionView>::empty());
        }
        None
    }
}

/// How specialization patches one instruction: a constant-defining
/// instruction whose specialization-constant ID is overridden has its
/// literal operand words replaced by the override's words (when the widths
/// agree, which validation guarantees), and an overridden boolean constant
/// switches between the true- and false-defining opcodes. Every other
/// instruction is kept as it is; instruction count and ID assignments never
/// change.
pub open spec fn spec_patched_inst(
    insts: Seq<InstructionView>,
    inst: InstructionView,
    info: Map<u64, crate::spec_constant::SpecializationConstant>,
) -> InstructionView {
    if (inst.opcode == OP_SPEC_CONSTANT_TRUE || inst.opcode == OP_SPEC_CONSTANT_FALSE
        || inst.opcode == OP_SPEC_CONSTANT) && inst.operands.len() >= 2 {
        match spec_decoration_value(insts, inst.operands[1], DECORATION_SPEC_ID) {
            Some(cid) => if info.contains_key(cid as u64) {
                let v = info[cid as u64];
                if inst.opcode == OP_SPEC_CONSTANT {
                    let w = v.spec_literal_words();
                    if w.len() == inst.operands.len() - 2 {
                        InstructionView { opcode: inst.opcode, operands: inst.operands.take(2) + w }
                    } else {
                        inst
                    }
                } else {
                    match v {
                        crate::spec_constant::SpecializationConstant::Bool(b) => InstructionView {
                            opcode: if b {
                                OP_SPEC_CONSTANT_TRUE
                            } else {
                                OP_SPEC_CONSTANT_FALSE
                            },
                            operands: inst.operands,
                        },
                        _ => inst,
                    }
                }
            } else {
                inst
            },
            None => inst,
        }
    } else {
        inst
    }
}

/// The instruction sequence after specialization.
pub open spec fn spec_apply_specialization(
    insts: Seq<InstructionView>,
    info: Map<u64, crate::spec_constant::SpecializationConstant>,
) -> Seq<InstructionView> {
    Seq::new(insts.len(), |i: int| spec_patched_inst(insts, insts[i], info))
}

/// Patching keeps each instruction's result ID and leaves capability,
/// extension and decoration instructions untouched.
proof fn lemma_patched_preserves(
    insts: Seq<InstructionView>,
    inst: InstructionView,
    info: Map<u64, crate::spec_constant::SpecializationConstant>,
)
    ensures
        spec_result_id(spec_patched_inst(insts, inst, info)) == spec_result_id(inst),
        inst.opcode != OP_SPEC_CONSTANT_TRUE && inst.opcode != OP_SPEC_CONSTANT_FALSE
            && inst.opcode != OP_SPEC_CONSTANT ==> spec_patched_inst(insts, inst, info) == inst,
        spec_patched_inst(insts, inst, info).opcode == OP_CAPABILITY <==> inst.opcode
            == OP_CAPABILITY,
        spec_patched_inst(insts, inst, info).opcode == OP_EXTENSION <==> inst.opcode
            == OP_EXTENSION,
{
    let p = spec_patched_inst(insts, inst, info);
    if (inst.opcode == OP_SPEC_CONSTANT_TRUE || inst.opcode == OP_SPEC_CONSTANT_FALSE
        || inst.opcode == OP_SPEC_CONSTANT) && inst.operands.len() >= 2 {
        assert(p.operands.len() >= 2);
        assert(p.operands[1] == inst.operands[1]) by {
            if p.operands != inst.operands {
                assert(p.operands == inst.operands.take(2) + spec_patched_words(insts, inst, info));
            }
        }
    }
}

/// The words a patched constant's literal operands hold; only used to name
/// the appended tail in proofs.
spec fn spec_patched_words(
    insts: Seq<InstructionView>,
    inst: InstructionView,
    info: Map<u64, crate::spec_constant::SpecializationConstant>,
) -> Seq<u32> {
    spec_patched_inst(insts, inst, info).operands.skip(2)
}

/// Two instruction sequences with the same result IDs have the same ID
/// table.
proof fn lemma_id_table_congruence(a: Seq<InstructionView>, b: Seq<InstructionView>)
    requires
        a.len() == b.len(),
        forall|i: int|
            0 <= i < a.len() ==> spec_result_id(#[trigger] a[i]) == spec_result_id(b[i]),
    ensures
        spec_id_table(a) == spec_id_table(b),
    decreases a.len(),
{
    if a.len() > 0 {
        assert forall|i: int| 0 <= i < a.drop_last().len() implies spec_result_id(
            #[trigger] a.drop_last()[i],
        ) == spec_result_id(b.drop_last()[i]) by {
            assert(a.drop_last()[i] == a[i]);
            assert(b.drop_last()[i] == b[i]);
        }
        lemma_id_table_congruence(a.drop_last(), b.drop_last());
        assert(spec_result_id(a.last()) == spec_result_id(b.last()));
    }
}

/// Two instruction sequences that agree on every capability instruction
/// declare the same capabilities.
proof fn lemma_capabilities_congruence(a: Seq<InstructionView>, b: Seq<InstructionView>)
    requires
        a.len() == b.len(),
        forall|i: int|
            0 <= i < a.len() ==> (((#[trigger] a[i]).opcode == OP_CAPABILITY || b[i].opcode
                == OP_CAPABILITY) ==> a[i] == b[i]),
    ensures
        spec_capabilities(a) == spec_capabilities(b),
    decreases a.len(),
{
    if a.len() > 0 {
        assert forall|i: int|
            0 <= i < a.drop_last().len() implies (((#[trigger] a.drop_last()[i]).opcode
            == OP_CAPABILITY || b.drop_last()[i].opcode == OP_CAPABILITY) ==> a.drop_last()[i]
            == b.drop_last()[i]) by {
            assert(a.drop_last()[i] == a[i]);
            assert(b.drop_last()[i] == b[i]);
        }
        lemma_capabilities_congruence(a.drop_last(), b.drop_last());
        assert(a[a.len() - 1] == a.last() && b[b.len() - 1] == b.last());
    }
}

/// Two instruction sequences that agree on every extension instruction
/// declare the same extensions.
proof fn lemma_extensions_congruence(a: Seq<InstructionView>, b: Seq<InstructionView>)
    requires
        a.len() == b.len(),
        forall|i: int|
            0 <= i < a.len() ==> (((#[trigger] a[i]).opcode == OP_EXTENSION || b[i].opcode
                == OP_EXTENSION) ==> a[i] == b[i]),
    ensures
        spec_extensions(a) == spec_extensions(b),
    decreases a.len(),
{
    if a.len() > 0 {
        assert forall|i: int|
            0 <= i < a.drop_last().len() implies (((#[trigger] a.drop_last()[i]).opcode
            == OP_EXTENSION || b.drop_last()[i].opcode == OP_EXTENSION) ==> a.drop_last()[i]
            == b.drop_last()[i]) by {
            assert(a.drop_last()[i] == a[i]);
            assert(b.drop_last()[i] == b[i]);
        }
        lemma_extensions_congruence(a.drop_last(), b.drop_last());
        assert(a[a.len() - 1] == a.last() && b[b.len() - 1] == b.last());
    }
}

/// Specialization never changes the instruction count or the ID
/// assignments: the patched sequence is as long as the input, every patched
/// instruction defines the same result ID as the instruction it replaces,
/// and every instruction that does not define a specialization constant is
/// left exactly as it is.
pub proof fn lemma_specialization_preserves_structure(
    insts: Seq<InstructionView>,
    info: Map<u64, crate::spec_constant::SpecializationConstant>,
)
    ensures
        spec_apply_specialization(insts, info).len() == insts.len(),
        forall|i: int|
            0 <= i < insts.len() ==> spec_result_id(
                #[trigger] spec_apply_specialization(insts, info)[i],
            ) == spec_result_id(insts[i]),
        forall|i: int|
            0 <= i < insts.len() && (#[trigger] insts[i]).opcode != OP_SPEC_CONSTANT_TRUE
                && insts[i].opcode != OP_SPEC_CONSTANT_FALSE && insts[i].opcode
                != OP_SPEC_CONSTANT ==> spec_apply_specialization(insts, info)[i] == insts[i],
        spec_id_table(spec_apply_specialization(insts, info)) == spec_id_table(insts),
{
    let out = spec_apply_specialization(insts, info);
    assert forall|i: int| 0 <= i < insts.len() implies spec_result_id(#[trigger] out[i])
        == spec_result_id(insts[i]) by {
        lemma_patched_preserves(insts, insts[i], info);
    }
    assert forall|i: int|
        0 <= i < insts.len() && (#[trigger] insts[i]).opcode != OP_SPEC_CONSTANT_TRUE
            && insts[i].opcode != OP_SPEC_CONSTANT_FALSE && insts[i].opcode
            != OP_SPEC_CONSTANT implies out[i] == insts[i] by {
        lemma_patched_preserves(insts, insts[i], info);
    }
    lemma_id_table_congruence(out, insts);
}

impl Spirv {
    /// A new instruction graph with the given specialization applied: for
    /// every constant-defining instruction whose specialization-constant ID
    /// the info names, the literal operand words are replaced by the
    /// override's representation. The original graph is not touched.
    pub fn specialized(&self, info: &KeyMap<crate::spec_constant::SpecializationConstant>) -> (r:
        Spirv)
        requires
            self.wf(),
        ensures
            r@.version == self@.version,
            r@.bound == self@.bound,
            r@.instructions == spec_apply_specialization(self@.instructions, info@),
            r.wf(),
    {
        let ghost iv = self@.instructions;
        let n = self.instructions.len();
        let mut out: Vec<Instruction> = Vec::new();
        let mut i: usize = 0;
        while i < n
            invariant
                n == iv.len(),
                iv == self@.instructions,
                self.wf(),
                i <= n,
                out@.len() == i,
                forall|j: int|
                    0 <= j < i ==> (#[trigger] out@[j])@ == spec_patched_inst(iv, iv[j], info@),
            decreases n - i,
        {
            let inst = &self.instructions[i];
            let patched: Instruction = if (inst.opcode == OP_SPEC_CONSTANT_TRUE || inst.opcode
                == OP_SPEC_CONSTANT_FALSE || inst.opcode == OP_SPEC_CONSTANT)
                && inst.operands.len() >= 2 {
                match self.decoration_value(inst.operands[1], DECORATION_SPEC_ID) {
                    Some(cid) => {
                        match info.get(cid as u64) {
                            Some(v) => {
                                if inst.opcode == OP_SPEC_CONSTANT {
                                    let w = v.literal_words();
                                    if w.len() == inst.operands.len() - 2 {
                                        let mut ops: Vec<u32> = Vec::new();
                                        ops.push(inst.operands[0]);
                                        ops.push(inst.operands[1]);
                                        let wn = w.len();
                                        let mut k: usize = 0;
                                        while k < wn
                                            invariant
                                                wn == w@.len(),
                                                k <= wn,
                                                inst.operands@.len() >= 2,
                                                ops@ == inst.operands@.take(2) + w@.subrange(
                                                    0,
                                                    k as int,
                                                ),
                                            decreases wn - k,
                                        {
                                            ops.push(w[k]);
                                            proof {
                                                assert(ops@ =~= inst.operands@.take(2)
                                                    + w@.subrange(0, k as int + 1));
                                            }
                                            k = k + 1;
                                        }
                                        proof {
                                            assert(ops@ =~= inst.operands@.take(2) + w@);
                                        }
                                        Instruction { opcode: inst.opcode, operands: ops }
                                    } else {
                                        inst.duplicate()
                                    }
                                } else {
                                    match v {
                                        crate::spec_constant::SpecializationConstant::Bool(b) => {
                                            let mut d = inst.duplicate();
                                            d.opcode = if *b {
                                                OP_SPEC_CONSTANT_TRUE
                                            } else {
                                                OP_SPEC_CONSTANT_FALSE
                                            };
                                            d
                                        },
                                        _ => inst.duplicate(),
                                    }
                                }
                            },
                            None => inst.duplicate(),
                        }
                    },
                    None => inst.duplicate(),
                }
            } else {
                inst.duplicate()
            };
            proof {
                assert(patched@ =~= spec_patched_inst(iv, iv[i as int], info@));
            }
            out.push(patched);
            i = i + 1;
        }
        let ghost ov = spec_insts_view(out);
        proof {
            assert(ov =~= spec_apply_specialization(iv, info@));
            assert forall|j: int| 0 <= j < iv.len() implies spec_result_id(#[trigger] ov[j])
                == spec_result_id(iv[j]) by {
                lemma_patched_preserves(iv, iv[j], info@);
            }
            lemma_id_table_congruence(ov, iv);
            assert forall|j: int|
                0 <= j < iv.len() implies (((#[trigger] ov[j]).opcode == OP_CAPABILITY
                || iv[j].opcode == OP_CAPABILITY) ==> ov[j] == iv[j]) by {
                lemma_patched_preserves(iv, iv[j], info@);
            }
            lemma_capabilities_congruence(ov, iv);
            assert forall|j: int|
                0 <= j < iv.len() implies (((#[trigger] ov[j]).opcode == OP_EXTENSION
                || iv[j].opcode == OP_EXTENSION) ==> ov[j] == iv[j]) by {
                lemma_patched_preserves(iv, iv[j], info@);
            }
            lemma_extensions_congruence(ov, iv);
        }
        let ids = self.ids.duplicate();
        let capabilities = copy_words(&self.capabilities);
        let extensions = copy_byte_vecs(&self.extensions);
        let r = Spirv {
            version: self.version,
            bound: self.bound,
            instructions: out,
            ids,
            capabilities,
            extensions,
        };
        proof {
            assert(r@.instructions =~= spec_apply_specialization(self@.instructions, info@));
            assert(r.ids@.map_values(|x: usize| x as int) =~= spec_id_table(r@.instructions));
            assert(r.extensions@.map_values(|v: Vec<u8>| v@) =~= spec_extensions(r@.instructions));
        }
        r
    }
}

/// An independent copy of a word vector.
pub(crate) fn copy_words(v: &Vec<u32>) -> (r: Vec<u32>)
    ensures
        r@ == v@,
{
    let mut r: Vec<u32> = Vec::new();
    let n = v.len();
    let mut i: usize = 0;
    while i < n
        invariant
            n == v@.len(),
            i <= n,
            r@ == v@.subrange(0, i as int),
        decreases n - i,
    {
        r.push(v[i]);
        proof {
            assert(r@ =~= v@.subrange(0, i as int + 1));
        }
        i = i + 1;
    }
    proof {
        assert(r@ =~= v@);
    }
    r
}

/// An independent copy of a byte vector.
pub(crate) fn copy_bytes(v: &Vec<u8>) -> (r: Vec<u8>)
    ensures
        r@ == v@,
{
    let mut r: Vec<u8> = Vec::new();
    let n = v.len();
    let mut i: usize = 0;
    while i < n
        invariant
            n == v@.len(),
            i <= n,
            r@ == v@.subrange(0, i as int),
        decreases n - i,
    {
        r.push(v[i]);
        proof {
            assert(r@ =~= v@.subrange(0, i as int + 1));
        }
        i = i + 1;
    }
    proof {
        assert(r@ =~= v@);
    }
    r
}

/// An independent copy of a vector of byte vectors.
pub(crate) fn copy_byte_vecs(v: &Vec<Vec<u8>>) -> (r: Vec<Vec<u8>>)
    ensures
        r@.map_values(|x: Vec<u8>| x@) == v@.map_values(|x: Vec<u8>| x@),
{
    let mut r: Vec<Vec<u8>> = Vec::new();
    let n = v.len();
    let mut i: usize = 0;
    while i < n
        invariant
            n == v@.len(),
            i <= n,
            r@.len() == i,
            forall|j: int| 0 <= j < i ==> (#[trigger] r@[j])@ == v@[j]@,
        decreases n - i,
    {
        r.push(copy_bytes(&v[i]));
        i = i + 1;
    }
    proof {
        assert(r@.map_values(|x: Vec<u8>| x@) =~= v@.map_values(|x: Vec<u8>| x@));
    }
    r
}

/// The words a byte sequence holds, least significant byte first.
pub open spec fn spec_bytes_to_words(bytes: Seq<u8>) -> Seq<u32> {
    Seq::new(
        (bytes.len() / 4) as nat,
        |i: int|
            spec_word_of_bytes(bytes[4 * i], bytes[4 * i + 1], bytes[4 * i + 2], bytes[4 * i + 3]),
    )
}

/// Turns a byte slice into words, little-endian. Fails if the length is not
/// a multiple of four.
pub fn bytes_to_words(bytes: &[u8]) -> (r: Option<Vec<u32>>)
    ensures
        match r {
            Some(words) => bytes@.len() % 4 == 0 && words@ == spec_bytes_to_words(bytes@),
            None => bytes@.len() % 4 != 0,
        },
{
    let n = bytes.len();
    if n % 4 != 0 {
        return None;
    }
    let count = n / 4;
    let mut words: Vec<u32> = Vec::new();
    let mut i: usize = 0;
    while i < count
        invariant
            n == bytes@.len(),
            n % 4 == 0,
            count == n / 4,
            i <= count,
            words@.len() == i,
            forall|j: int|
                0 <= j < i ==> #[trigger] words@[j] == spec_word_of_bytes(
                    bytes@[4 * j],
                    bytes@[4 * j + 1],
                    bytes@[4 * j + 2],
                    bytes@[4 * j + 3],
                ),
        decreases count - i,
    {
        let b0 = bytes[4 * i] as u32;
        let b1 = bytes[4 * i + 1] as u32;
        let b2 = bytes[4 * i + 2] as u32;
        let b3 = bytes[4 * i + 3] as u32;
        words.push(b0 + 0x100 * b1 + 0x1_0000 * b2 + 0x100_0000 * b3);
        i = i + 1;
    }
    proof {
        assert(words@ =~= spec_bytes_to_words(bytes@));
    }
    Some(words)
}

/// The word with the given four bytes, least significant first.
pub open spec fn spec_word_of_bytes(b0: u8, b1: u8, b2: u8, b3: u8) -> u32 {
    (b0 + 0x100 * (b1 as int) + 0x1_0000 * (b2 as int) + 0x100_0000 * (b3 as int)) as u32
}

} // verus!
