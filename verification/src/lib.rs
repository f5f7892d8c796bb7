//! Core of a request-batched embedding server: dynamic token-budget batching
//! over tokenized entries, the packed (cumulative-offset) batch layout that a
//! variable-length attention backend consumes, and the scatter of pooled and
//! per-token outputs back to the originating requests.
//!
//! The surrounding process (HTTP surface, model download, device work) is
//! unverified glue; everything here is plain data and proved logic.

mod batch;
mod config;
mod entry;
mod error;
mod infer;
mod model;
mod pooling;
mod queue;
mod tokenize;

pub use batch::{lemma_every_member_covered, only_raw_members, Batch};
pub use config::{
    has_classifier_architecture, max_input_length, pooling_from_config, position_offset,
    resolve_backend_model_type, resolve_info_model_type, resolve_max_batch_requests,
    ClassifierModel, EmbeddingModel, InfoModelType, ModelConfig, ModelType, PoolConfig,
};
pub use entry::Entry;
pub use error::InferError;
pub use infer::{
    lemma_permit_released_exactly_once, lemma_permitless_stays, PermitGauge, Session,
    SessionEvent, SessionState, StepOutcome,
};
pub use model::{
    validate_flash_jina_code_load, DataType, DeviceKind, LoadPlan, PositionEmbeddingKind,
};
pub use pooling::{
    forward_plan, gather_rows, lemma_length_one_member_pooling, lemma_raw_plan_identity,
    lemma_single_item_equivalence, lemma_single_member_max_length, ForwardPlan, Pool, PooledPlan,
    RawPlan,
};
pub use queue::{backend_failure_replies, NextBatch, Queue, Rejection};
pub use tokenize::{prepare_encoding, tokenize, ValidEncoding};
