use vstd::prelude::*;

use crate::config::ModelType;
use crate::error::InferError;
use crate::pooling::Pool;

verus! {

/// Positional scheme of the checkpoint.
#[derive(Clone, Copy, Debug, PartialEq, Eq, Structural)]
pub enum PositionEmbeddingKind {
    Absolute,
    /// Attention-with-linear-biases: fixed per-head slopes, no learned
    /// position table.
    Alibi,
}

/// Where the weights live.
#[derive(Clone, Copy, Debug, PartialEq, Eq, Structural)]
pub enum DeviceKind {
    Cpu,
    Cuda,
    Metal,
}

/// Numeric width the weights are forced to.
#[derive(Clone, Copy, Debug, PartialEq, Eq, Structural)]
pub enum DataType {
    Float16,
    Float32,
}

/// What a successful load of the packed-attention Jina-code BERT model
/// commits to.
#[derive(Clone, Copy, Debug, PartialEq, Eq, Structural)]
pub struct LoadPlan {
    /// Pooling operator used at dispatch; never `Splade`.
    pub pool: Pool,
    /// Whether per-head ALiBi slopes are applied in attention.
    pub use_alibi: bool,
}

impl LoadPlan {
    /// The packed-attention path never pads: members of a batch keep
    /// their true lengths and the token cost of a batch is the plain sum.
    pub fn is_padded(&self) -> (r: bool)
        ensures
            !r,
    {
        false
    }
}

/// The load outcome the configuration forces.
pub open spec fn spec_validate_load(
    device: DeviceKind,
    dtype: DataType,
    model_type: ModelType,
    position_embedding: PositionEmbeddingKind,
) -> Result<LoadPlan, InferError> {
    if device != DeviceKind::Cuda {
        Err(InferError::ModelLoad)
    } else if dtype != DataType::Float16 {
        Err(InferError::ModelLoad)
    } else {
        match model_type {
            ModelType::Classifier => Err(InferError::ModelLoad),
            ModelType::Embedding(p) => if p == Pool::Splade {
                Err(InferError::ModelLoad)
            } else {
                Ok(
                    LoadPlan {
                        pool: p,
                        use_alibi: position_embedding == PositionEmbeddingKind::Alibi,
                    },
                )
            },
        }
    }
}

/// The load-time gate of the packed-attention Jina-code BERT model: it
/// runs only on a CUDA device in half precision, only as an embedding
/// model, and never with SPLADE pooling; ALiBi slopes are enabled exactly
/// when the checkpoint says so.
pub fn validate_flash_jina_code_load(
    device: DeviceKind,
    dtype: DataType,
    model_type: ModelType,
    position_embedding: PositionEmbeddingKind,
) -> (r: Result<LoadPlan, InferError>)
    ensures
        r == spec_validate_load(device, dtype, model_type, position_embedding),
        r matches Ok(plan) ==> plan.pool != Pool::Splade,
{
    if device != DeviceKind::Cuda {
        return Err(InferError::ModelLoad);
    }
    if dtype != DataType::Float16 {
        return Err(InferError::ModelLoad);
    }
    match model_type {
        ModelType::Classifier => Err(InferError::ModelLoad),
        ModelType::Embedding(p) => {
            if p == Pool::Splade {
                Err(InferError::ModelLoad)
            } else {
                Ok(
                    LoadPlan {
                        pool: p,
                        use_alibi: position_embedding == PositionEmbeddingKind::Alibi,
                    },
                )
            }
        },
    }
}

} // verus!
