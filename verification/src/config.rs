use vstd::prelude::*;

use vstd::slice::slice_index_get;
use vstd::utf8::encode_utf8;

use crate::error::InferError;
use crate::pooling::Pool;

verus! {

/// The model's `config.json`, reduced to the fields this core reads.
///
/// The two label maps arrive as pair lists; only their presence and the
/// number of labels matter here.
pub struct ModelConfig {
    pub architectures: Vec<String>,
    pub model_type: String,
    pub max_position_embeddings: usize,
    pub pad_token_id: usize,
    pub id2label: Option<Vec<(String, String)>>,
    pub label2id: Option<Vec<(String, usize)>>,
}

/// The model's `1_Pooling/config.json`: exactly one mode is expected to
/// be set, and only the first two are supported.
pub struct PoolConfig {
    pub pooling_mode_cls_token: bool,
    pub pooling_mode_mean_tokens: bool,
    pub pooling_mode_max_tokens: bool,
    pub pooling_mode_mean_sqrt_len_tokens: bool,
}

/// What the backend is asked to be: a classifier head, or an embedding
/// model with a pooling operator.
#[derive(Clone, Copy, Debug, PartialEq, Eq, Structural)]
pub enum ModelType {
    Classifier,
    Embedding(Pool),
}

/// `suffix` matches the end of `s`, both as UTF-8 bytes.
pub open spec fn bytes_end_with(s: Seq<u8>, suffix: Seq<u8>) -> bool {
    suffix.len() <= s.len() && s.skip(s.len() - suffix.len()) == suffix
}

/// The architecture name announces a classification head.
pub open spec fn spec_is_classifier_arch(name: Seq<char>) -> bool {
    bytes_end_with(encode_utf8(name), encode_utf8("Classification"@))
}

/// Some architecture in the list announces a classification head.
pub open spec fn spec_is_classifier(architectures: Seq<String>) -> bool {
    exists|i: int| 0 <= i < architectures.len() && spec_is_classifier_arch(architectures[i]@)
}

/// Byte-exact suffix test over the UTF-8 encodings of the two strings.
fn str_ends_with(s: &str, suffix: &str) -> (r: bool)
    ensures
        r == bytes_end_with(encode_utf8(s@), encode_utf8(suffix@)),
{
    let sb = s.as_bytes();
    let tb = suffix.as_bytes();
    let n = tb.len();
    if n > sb.len() {
        return false;
    }
    let off = sb.len() - n;
    for j in 0..n
        invariant
            sb@ == encode_utf8(s@),
            tb@ == encode_utf8(suffix@),
            n == tb@.len(),
            n <= sb@.len(),
            sb@.len() <= usize::MAX,
            off == sb@.len() - n,
            forall|t: int| 0 <= t < j ==> sb@[off + t] == tb@[t],
    {
        let a = *slice_index_get(sb, off + j);
        let b = *slice_index_get(tb, j);
        if a != b {
            proof {
                assert(sb@.skip(off as int)[j as int] != tb@[j as int]);
            }
            return false;
        }
    }
    proof {
        assert(sb@.skip(off as int) =~= tb@);
    }
    true
}

/// Whether any architecture name in the model configuration ends in
/// `Classification`; such a model is served as a classifier or reranker
/// and the pooling choice is ignored.
pub fn has_classifier_architecture(architectures: &Vec<String>) -> (r: bool)
    ensures
        r == spec_is_classifier(architectures@),
{
    let n = architectures.len();
    for i in 0..n
        invariant
            n == architectures@.len(),
            forall|t: int| 0 <= t < i ==> !spec_is_classifier_arch(architectures@[t]@),
    {
        let arch = &architectures[i];
        if str_ends_with(arch.as_str(), "Classification") {
            return true;
        }
    }
    false
}

/// The pooling operator a pooling configuration selects.
pub open spec fn spec_pooling_from_config(c: PoolConfig) -> Result<Pool, InferError> {
    if c.pooling_mode_cls_token {
        Ok(Pool::Cls)
    } else if c.pooling_mode_mean_tokens {
        Ok(Pool::Mean)
    } else {
        Err(InferError::ModelLoad)
    }
}

/// Read the pooling operator out of `1_Pooling/config.json`: CLS wins
/// over mean; any other combination is unsupported.
pub fn pooling_from_config(c: &PoolConfig) -> (r: Result<Pool, InferError>)
    ensures
        r == spec_pooling_from_config(*c),
{
    if c.pooling_mode_cls_token {
        Ok(Pool::Cls)
    } else if c.pooling_mode_mean_tokens {
        Ok(Pool::Mean)
    } else {
        Err(InferError::ModelLoad)
    }
}

/// The backend model type that a configuration resolves to.
pub open spec fn spec_resolve_backend_model_type(
    classifier: bool,
    pooling_arg: Option<Pool>,
    pool_config: Option<PoolConfig>,
) -> Result<ModelType, InferError> {
    if classifier {
        Ok(ModelType::Classifier)
    } else {
        match pooling_arg {
            Some(p) => Ok(ModelType::Embedding(p)),
            None => match pool_config {
                Some(pc) => match spec_pooling_from_config(pc) {
                    Ok(p) => Ok(ModelType::Embedding(p)),
                    Err(e) => Err(e),
                },
                None => Err(InferError::ModelLoad),
            },
        }
    }
}

/// Decide classifier-vs-embedding mode from the architecture list; for an
/// embedding model the pooling override wins, else the pooling
/// configuration file decides, and a model without either fails to load.
pub fn resolve_backend_model_type(
    config: &ModelConfig,
    pooling_arg: Option<Pool>,
    pool_config: Option<&PoolConfig>,
) -> (r: Result<ModelType, InferError>)
    ensures
        r == spec_resolve_backend_model_type(
            spec_is_classifier(config.architectures@),
            pooling_arg,
            match pool_config {
                Some(pc) => Some(*pc),
                None => None,
            },
        ),
{
    if has_classifier_architecture(&config.architectures) {
        Ok(ModelType::Classifier)
    } else {
        match pooling_arg {
            Some(p) => Ok(ModelType::Embedding(p)),
            None => match pool_config {
                Some(pc) => match pooling_from_config(pc) {
                    Ok(p) => Ok(ModelType::Embedding(p)),
                    Err(e) => Err(e),
                },
                None => Err(InferError::ModelLoad),
            },
        }
    }
}

/// The RoBERTa family starts positions after the padding token id.
pub open spec fn spec_is_roberta_kind(model_type: Seq<char>) -> bool {
    model_type == "xlm-roberta"@ || model_type == "camembert"@ || model_type == "roberta"@
}

/// First position id handed to the model: `pad_token_id + 1` for the
/// RoBERTa family, `0` for everything else.
pub open spec fn spec_position_offset(model_type: Seq<char>, pad_token_id: int) -> int {
    if spec_is_roberta_kind(model_type) {
        pad_token_id + 1
    } else {
        0
    }
}

pub fn position_offset(model_type: &String, pad_token_id: usize) -> (r: usize)
    requires
        pad_token_id < usize::MAX,
    ensures
        r == spec_position_offset(model_type@, pad_token_id as int),
{
    if *model_type == "xlm-roberta".to_owned() || *model_type == "camembert".to_owned()
        || *model_type == "roberta".to_owned() {
        pad_token_id + 1
    } else {
        0
    }
}

/// Longest admissible input: the position budget left after the offset.
/// An offset past `max_position_embeddings` is a broken configuration and
/// is excluded rather than wrapped around.
pub fn max_input_length(max_position_embeddings: usize, position_offset: usize) -> (r: usize)
    requires
        position_offset <= max_position_embeddings,
    ensures
        r == max_position_embeddings - position_offset,
{
    max_position_embeddings - position_offset
}

/// The backend's own batch-size cap overrides the command-line choice.
pub fn resolve_max_batch_requests(
    backend_max_batch_size: Option<usize>,
    arg_max_batch_requests: Option<usize>,
) -> (r: Option<usize>)
    ensures
        r == match backend_max_batch_size {
            Some(s) => Some(s),
            None => arg_max_batch_requests,
        },
{
    match backend_max_batch_size {
        Some(s) => Some(s),
        None => arg_max_batch_requests,
    }
}

/// Label maps of a classification model, as announced to clients.
pub struct ClassifierModel {
    pub id2label: Vec<(String, String)>,
    pub label2id: Vec<(String, usize)>,
}

/// Pooling of an embedding model, as announced to clients.
pub struct EmbeddingModel {
    pub pooling: Pool,
}

/// What the endpoint info reports this deployment to be.
pub enum InfoModelType {
    Classifier(ClassifierModel),
    Reranker(ClassifierModel),
    Embedding(EmbeddingModel),
}

/// A classification model with a single label is served as a reranker;
/// one with several labels as a classifier; both need their label maps.
pub fn resolve_info_model_type(
    backend_type: &ModelType,
    id2label: Option<Vec<(String, String)>>,
    label2id: Option<Vec<(String, usize)>>,
) -> (r: Result<InfoModelType, InferError>)
    ensures
        match *backend_type {
            ModelType::Embedding(p) => r matches Ok(InfoModelType::Embedding(m)) && m.pooling
                == p,
            ModelType::Classifier => match (id2label, label2id) {
                (Some(a), Some(b)) => {
                    if a@.len() > 1 {
                        r matches Ok(InfoModelType::Classifier(m)) && m.id2label == a
                            && m.label2id == b
                    } else {
                        r matches Ok(InfoModelType::Reranker(m)) && m.id2label == a && m.label2id
                            == b
                    }
                },
                _ => r == Err::<InfoModelType, InferError>(InferError::ModelLoad),
            },
        },
{
    match backend_type {
        ModelType::Embedding(p) => Ok(InfoModelType::Embedding(EmbeddingModel { pooling: *p })),
        ModelType::Classifier => match (id2label, label2id) {
            (Some(a), Some(b)) => {
                if a.len() > 1 {
                    Ok(InfoModelType::Classifier(ClassifierModel { id2label: a, label2id: b }))
                } else {
                    Ok(InfoModelType::Reranker(ClassifierModel { id2label: a, label2id: b }))
                }
            },
            _ => Err(InferError::ModelLoad),
        },
    }
}

} // verus!
