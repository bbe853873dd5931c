//! Shader stages: the execution model named by an entry point, the
//! corresponding stage, and bitsets of stages and pipeline stages.

use vstd::prelude::*;

verus! {

/// The execution model declared by an entry-point instruction.
#[derive(Clone, Copy, Debug, PartialEq, Eq, Structural)]
pub enum ExecutionModel {
    Vertex,
    TessellationControl,
    TessellationEvaluation,
    Geometry,
    Fragment,
    GLCompute,
    Kernel,
    TaskNV,
    MeshNV,
    RayGenerationKHR,
    IntersectionKHR,
    AnyHitKHR,
    ClosestHitKHR,
    MissKHR,
    CallableKHR,
    TaskEXT,
    MeshEXT,
}

/// The execution model encoded by an instruction operand word, if any.
pub open spec fn spec_execution_model(w: u32) -> Option<ExecutionModel> {
    if w == 0 {
        Some(ExecutionModel::Vertex)
    } else if w == 1 {
        Some(ExecutionModel::TessellationControl)
    } else if w == 2 {
        Some(ExecutionModel::TessellationEvaluation)
    } else if w == 3 {
        Some(ExecutionModel::Geometry)
    } else if w == 4 {
        Some(ExecutionModel::Fragment)
    } else if w == 5 {
        Some(ExecutionModel::GLCompute)
    } else if w == 6 {
        Some(ExecutionModel::Kernel)
    } else if w == 5267 {
        Some(ExecutionModel::TaskNV)
    } else if w == 5268 {
        Some(ExecutionModel::MeshNV)
    } else if w == 5313 {
        Some(ExecutionModel::RayGenerationKHR)
    } else if w == 5314 {
        Some(ExecutionModel::IntersectionKHR)
    } else if w == 5315 {
        Some(ExecutionModel::AnyHitKHR)
    } else if w == 5316 {
        Some(ExecutionModel::ClosestHitKHR)
    } else if w == 5317 {
        Some(ExecutionModel::MissKHR)
    } else if w == 5318 {
        Some(ExecutionModel::CallableKHR)
    } else if w == 5364 {
        Some(ExecutionModel::TaskEXT)
    } else if w == 5365 {
        Some(ExecutionModel::MeshEXT)
    } else {
        None
    }
}

impl ExecutionModel {
    /// Decodes the numeric execution-model operand of an entry-point
    /// instruction.
    pub fn from_word(w: u32) -> (r: Option<ExecutionModel>)
        ensures
            r == spec_execution_model(w),
    {
        if w == 0 {
            Some(ExecutionModel::Vertex)
        } else if w == 1 {
            Some(ExecutionModel::TessellationControl)
        } else if w == 2 {
            Some(ExecutionModel::TessellationEvaluation)
        } else if w == 3 {
            Some(ExecutionModel::Geometry)
        } else if w == 4 {
            Some(ExecutionModel::Fragment)
        } else if w == 5 {
            Some(ExecutionModel::GLCompute)
        } else if w == 6 {
            Some(ExecutionModel::Kernel)
        } else if w == 5267 {
            Some(ExecutionModel::TaskNV)
        } else if w == 5268 {
            Some(ExecutionModel::MeshNV)
        } else if w == 5313 {
            Some(ExecutionModel::RayGenerationKHR)
        } else if w == 5314 {
            Some(ExecutionModel::IntersectionKHR)
        } else if w == 5315 {
            Some(ExecutionModel::AnyHitKHR)
        } else if w == 5316 {
            Some(ExecutionModel::ClosestHitKHR)
        } else if w == 5317 {
            Some(ExecutionModel::MissKHR)
        } else if w == 5318 {
            Some(ExecutionModel::CallableKHR)
        } else if w == 5364 {
            Some(ExecutionModel::TaskEXT)
        } else if w == 5365 {
            Some(ExecutionModel::MeshEXT)
        } else {
            None
        }
    }
}

/// A shader stage within a pipeline.
#[derive(Clone, Copy, Debug, PartialEq, Eq, Structural)]
pub enum ShaderStage {
    Vertex,
    TessellationControl,
    TessellationEvaluation,
    Geometry,
    Fragment,
    Compute,
    Raygen,
    AnyHit,
    ClosestHit,
    Miss,
    Intersection,
    Callable,
    Task,
    Mesh,
    SubpassShading,
}

/// The stage that executes an entry point of the given execution model.
/// `Kernel` has no stage in a graphics pipeline.
pub open spec fn spec_stage_of_execution_model(m: ExecutionModel) -> Option<ShaderStage> {
    match m {
        ExecutionModel::Vertex => Some(ShaderStage::Vertex),
        ExecutionModel::TessellationControl => Some(ShaderStage::TessellationControl),
        ExecutionModel::TessellationEvaluation => Some(ShaderStage::TessellationEvaluation),
        ExecutionModel::Geometry => Some(ShaderStage::Geometry),
        ExecutionModel::Fragment => Some(ShaderStage::Fragment),
        ExecutionModel::GLCompute => Some(ShaderStage::Compute),
        ExecutionModel::Kernel => None,
        ExecutionModel::TaskNV => Some(ShaderStage::Task),
        ExecutionModel::MeshNV => Some(ShaderStage::Mesh),
        ExecutionModel::RayGenerationKHR => Some(ShaderStage::Raygen),
        ExecutionModel::IntersectionKHR => Some(ShaderStage::Intersection),
        ExecutionModel::AnyHitKHR => Some(ShaderStage::AnyHit),
        ExecutionModel::ClosestHitKHR => Some(ShaderStage::ClosestHit),
        ExecutionModel::MissKHR => Some(ShaderStage::Miss),
        ExecutionModel::CallableKHR => Some(ShaderStage::Callable),
        ExecutionModel::TaskEXT => Some(ShaderStage::Task),
        ExecutionModel::MeshEXT => Some(ShaderStage::Mesh),
    }
}

impl ShaderStage {
    /// The stage executing entry points of execution model `m`.
    ///
    /// The `Kernel` model exists in the instruction set but not in a graphics
    /// pipeline, so callers must rule it out.
    pub fn of_execution_model(m: ExecutionModel) -> (r: ShaderStage)
        requires
            m != ExecutionModel::Kernel,
        ensures
            Some(r) == spec_stage_of_execution_model(m),
    {
        match m {
            ExecutionModel::Vertex => ShaderStage::Vertex,
            ExecutionModel::TessellationControl => ShaderStage::TessellationControl,
            ExecutionModel::TessellationEvaluation => ShaderStage::TessellationEvaluation,
            ExecutionModel::Geometry => ShaderStage::Geometry,
            ExecutionModel::Fragment => ShaderStage::Fragment,
            ExecutionModel::GLCompute => ShaderStage::Compute,
            ExecutionModel::Kernel => ShaderStage::Vertex,  // excluded by the precondition
            ExecutionModel::TaskNV => ShaderStage::Task,
            ExecutionModel::MeshNV => ShaderStage::Mesh,
            ExecutionModel::RayGenerationKHR => ShaderStage::Raygen,
            ExecutionModel::IntersectionKHR => ShaderStage::Intersection,
            ExecutionModel::AnyHitKHR => ShaderStage::AnyHit,
            ExecutionModel::ClosestHitKHR => ShaderStage::ClosestHit,
            ExecutionModel::MissKHR => ShaderStage::Miss,
            ExecutionModel::CallableKHR => ShaderStage::Callable,
            ExecutionModel::TaskEXT => ShaderStage::Task,
            ExecutionModel::MeshEXT => ShaderStage::Mesh,
        }
    }

    /// The bit this stage occupies in a `ShaderStages` set.
    pub open spec fn spec_bit(self) -> u32 {
        match self {
            ShaderStage::Vertex => 0x1,
            ShaderStage::TessellationControl => 0x2,
            ShaderStage::TessellationEvaluation => 0x4,
            ShaderStage::Geometry => 0x8,
            ShaderStage::Fragment => 0x10,
            ShaderStage::Compute => 0x20,
            ShaderStage::Task => 0x40,
            ShaderStage::Mesh => 0x80,
            ShaderStage::Raygen => 0x100,
            ShaderStage::AnyHit => 0x200,
            ShaderStage::ClosestHit => 0x400,
            ShaderStage::Miss => 0x800,
            ShaderStage::Intersection => 0x1000,
            ShaderStage::Callable => 0x2000,
            ShaderStage::SubpassShading => 0x4000,
        }
    }

    /// The bit this stage occupies in a `ShaderStages` set.
    pub fn bit(self) -> (r: u32)
        ensures
            r == self.spec_bit(),
    {
        match self {
            ShaderStage::Vertex => 0x1,
            ShaderStage::TessellationControl => 0x2,
            ShaderStage::TessellationEvaluation => 0x4,
            ShaderStage::Geometry => 0x8,
            ShaderStage::Fragment => 0x10,
            ShaderStage::Compute => 0x20,
            ShaderStage::Task => 0x40,
            ShaderStage::Mesh => 0x80,
            ShaderStage::Raygen => 0x100,
            ShaderStage::AnyHit => 0x200,
            ShaderStage::ClosestHit => 0x400,
            ShaderStage::Miss => 0x800,
            ShaderStage::Intersection => 0x1000,
            ShaderStage::Callable => 0x2000,
            ShaderStage::SubpassShading => 0x4000,
        }
    }
}

/// A set of [`ShaderStage`] values, as a bitmask.
#[derive(Clone, Copy, Debug, PartialEq, Eq, Structural)]
pub struct ShaderStages {
    pub bits: u32,
}

impl ShaderStages {
    /// The empty set.
    pub fn empty() -> (r: ShaderStages)
        ensures
            r.bits == 0,
    {
        ShaderStages { bits: 0 }
    }

    /// The set holding exactly `stage`.
    pub fn from_stage(stage: ShaderStage) -> (r: ShaderStages)
        ensures
            r.bits == stage.spec_bit(),
    {
        ShaderStages { bits: stage.bit() }
    }

    /// The set of all graphics stages.
    pub fn all_graphics() -> (r: ShaderStages)
        ensures
            r.bits == 0x1f,
    {
        ShaderStages { bits: 0x1f }
    }

    /// The union of two stage sets.
    pub fn union(self, other: ShaderStages) -> (r: ShaderStages)
        ensures
            r.bits == self.bits | other.bits,
    {
        ShaderStages { bits: self.bits | other.bits }
    }

    /// Whether the two sets share a stage.
    pub fn intersects(self, other: ShaderStages) -> (r: bool)
        ensures
            r == ((self.bits & other.bits) != 0),
    {
        (self.bits & other.bits) != 0
    }

    /// Whether `stage` is in the set.
    pub fn contains_stage(self, stage: ShaderStage) -> (r: bool)
        ensures
            r == ((self.bits & stage.spec_bit()) != 0),
    {
        (self.bits & stage.bit()) != 0
    }
}

/// A set of pipeline stages, as a bitmask.
#[derive(Clone, Copy, Debug, PartialEq, Eq, Structural)]
pub struct PipelineStages {
    pub bits: u64,
}

/// The pipeline stages in which a set of shader stages executes.
pub open spec fn spec_pipeline_stages(stages: ShaderStages) -> u64 {
    let b = stages.bits;
    (if b & 0x1 != 0 {
        0x8u64
    } else {
        0u64
    }) | (if b & 0x2 != 0 {
        0x10u64
    } else {
        0u64
    }) | (if b & 0x4 != 0 {
        0x20u64
    } else {
        0u64
    }) | (if b & 0x8 != 0 {
        0x40u64
    } else {
        0u64
    }) | (if b & 0x10 != 0 {
        0x80u64
    } else {
        0u64
    }) | (if b & 0x20 != 0 {
        0x800u64
    } else {
        0u64
    }) | (if b & (0x100u32 | 0x200 | 0x400 | 0x800 | 0x1000 | 0x2000) != 0 {
        0x200000u64
    } else {
        0u64
    }) | (if b & 0x40 != 0 {
        0x80000u64
    } else {
        0u64
    }) | (if b & 0x80 != 0 {
        0x100000u64
    } else {
        0u64
    }) | (if b & 0x4000 != 0 {
        0x8000000000u64
    } else {
        0u64
    })
}

impl PipelineStages {
    /// The empty set.
    pub fn empty() -> (r: PipelineStages)
        ensures
            r.bits == 0,
    {
        PipelineStages { bits: 0 }
    }

    /// The pipeline stages in which `stages` executes: each shader stage maps
    /// to its pipeline stage, and all ray-tracing stages map to the single
    /// ray-tracing pipeline stage.
    pub fn from_shader_stages(stages: ShaderStages) -> (r: PipelineStages)
        ensures
            r.bits == spec_pipeline_stages(stages),
    {
        let b = stages.bits;
        let p0: u64 = if b & 0x1 != 0 {
            0x8
        } else {
            0
        };
        let p1: u64 = if b & 0x2 != 0 {
            0x10
        } else {
            0
        };
        let p2: u64 = if b & 0x4 != 0 {
            0x20
        } else {
            0
        };
        let p3: u64 = if b & 0x8 != 0 {
            0x40
        } else {
            0
        };
        let p4: u64 = if b & 0x10 != 0 {
            0x80
        } else {
            0
        };
        let p5: u64 = if b & 0x20 != 0 {
            0x800
        } else {
            0
        };
        let p6: u64 = if b & (0x100u32 | 0x200 | 0x400 | 0x800 | 0x1000 | 0x2000) != 0 {
            0x200000
        } else {
            0
        };
        let p7: u64 = if b & 0x40 != 0 {
            0x80000
        } else {
            0
        };
        let p8: u64 = if b & 0x80 != 0 {
            0x100000
        } else {
            0
        };
        let p9: u64 = if b & 0x4000 != 0 {
            0x8000000000
        } else {
            0
        };
        PipelineStages { bits: p0 | p1 | p2 | p3 | p4 | p5 | p6 | p7 | p8 | p9 }
    }
}

} // verus!
