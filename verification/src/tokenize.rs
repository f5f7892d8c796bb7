use vstd::prelude::*;

use crate::error::InferError;

verus! {

/// The fast tokenizer this server wraps; opaque here. Its construction
/// (reading `tokenizer.json`, the Metaspace pre-tokenizer adjustments,
/// disabling padding) happens in the unverified runtime at load time.
#[verifier::external_type_specification]
#[verifier::external_body]
pub struct ExTokenizer(tokenizers::Tokenizer);

/// Relies on `tokenizers::Tokenizer::encode` (with special tokens) for
/// turning text into parallel token-id and type-id sequences; nothing is
/// assumed about the values it produces, and a tokenizer failure is
/// carried as the `Tokenization` error.
#[verifier::external_body]
fn encode_text(tokenizer: &tokenizers::Tokenizer, text: &str) -> (r: Result<
    (Vec<u32>, Vec<u32>),
    InferError,
>)
    ensures
        r matches Err(e) ==> e == InferError::Tokenization,
{
    match tokenizer.encode(text, true) {
        Ok(encoding) => Ok((encoding.get_ids().to_vec(), encoding.get_type_ids().to_vec())),
        Err(_) => Err(InferError::Tokenization),
    }
}

/// A validated, possibly truncated encoding, ready to become an entry:
/// three sequences of one common length of at least one token.
#[derive(Clone, Debug, PartialEq, Eq)]
pub struct ValidEncoding {
    pub input_ids: Vec<u32>,
    pub token_type_ids: Vec<u32>,
    pub position_ids: Vec<u32>,
}

impl ValidEncoding {
    pub open spec fn wf(self) -> bool {
        &&& 1 <= self.input_ids@.len()
        &&& self.token_type_ids@.len() == self.input_ids@.len()
        &&& self.position_ids@.len() == self.input_ids@.len()
    }

    /// Number of tokens.
    pub open spec fn spec_len(self) -> int {
        self.input_ids@.len() as int
    }
}

/// Validate and truncate what the tokenizer produced, and lay down the
/// position ids, which start at `position_offset`.
///
/// An empty encoding, or one whose id and type-id sequences disagree in
/// length, is a tokenizer failure. One longer than `max_input_length`
/// keeps its first `max_input_length` tokens when truncation is on, and
/// fails with `InputTooLong` when it is off.
pub fn prepare_encoding(
    input_ids: Vec<u32>,
    token_type_ids: Vec<u32>,
    truncate: bool,
    max_input_length: usize,
    position_offset: u32,
) -> (r: Result<ValidEncoding, InferError>)
    requires
        1 <= max_input_length,
        position_offset + max_input_length <= u32::MAX,
    ensures
        (r is Ok) <==> (1 <= input_ids@.len() && input_ids@.len() == token_type_ids@.len() && (
        truncate || input_ids@.len() <= max_input_length)),
        (input_ids@.len() == 0 || input_ids@.len() != token_type_ids@.len()) ==> r == Err::<
            ValidEncoding,
            InferError,
        >(InferError::Tokenization),
        (1 <= input_ids@.len() && input_ids@.len() == token_type_ids@.len() && !truncate
            && input_ids@.len() > max_input_length) ==> r == Err::<ValidEncoding, InferError>(
            (InferError::InputTooLong {
                length: input_ids@.len() as usize,
                max_length: max_input_length,
            }),
        ),
        r matches Ok(v) ==> {
            let kept = if input_ids@.len() <= max_input_length {
                input_ids@.len() as int
            } else {
                max_input_length as int
            };
            &&& v.wf()
            &&& v.spec_len() == kept
            &&& v.spec_len() <= max_input_length
            &&& v.input_ids@ == input_ids@.take(kept)
            &&& v.token_type_ids@ == token_type_ids@.take(kept)
            &&& forall|i: int|
                0 <= i < kept ==> #[trigger] v.position_ids@[i] == position_offset + i
        },
{
    let len = input_ids.len();
    if len == 0 || token_type_ids.len() != len {
        return Err(InferError::Tokenization);
    }
    if len > max_input_length && !truncate {
        return Err(InferError::InputTooLong { length: len, max_length: max_input_length });
    }
    let kept = if len <= max_input_length {
        len
    } else {
        max_input_length
    };
    let mut input_ids = input_ids;
    let mut token_type_ids = token_type_ids;
    input_ids.truncate(kept);
    token_type_ids.truncate(kept);
    let mut position_ids: Vec<u32> = Vec::new();
    for i in 0..kept
        invariant
            kept <= max_input_length,
            position_offset + max_input_length <= u32::MAX,
            position_ids@.len() == i,
            forall|t: int| 0 <= t < i ==> #[trigger] position_ids@[t] == position_offset + t,
    {
        position_ids.push(position_offset + (i as u32));
    }
    Ok(ValidEncoding { input_ids, token_type_ids, position_ids })
}

/// Tokenize one text: encode through the wrapped tokenizer, then validate
/// and truncate. Whatever the tokenizer hands back, a success is a
/// well-formed encoding within the length budget with exact position
/// ids; a failure is one of the two ingress errors.
pub fn tokenize(
    tokenizer: &tokenizers::Tokenizer,
    text: &str,
    truncate: bool,
    max_input_length: usize,
    position_offset: u32,
) -> (r: Result<ValidEncoding, InferError>)
    requires
        1 <= max_input_length,
        position_offset + max_input_length <= u32::MAX,
    ensures
        r matches Ok(v) ==> {
            &&& v.wf()
            &&& v.spec_len() <= max_input_length
            &&& forall|i: int|
                0 <= i < v.spec_len() ==> #[trigger] v.position_ids@[i] == position_offset + i
        },
        r matches Err(e) ==> (e is Tokenization || e is InputTooLong),
{
    match encode_text(tokenizer, text) {
        Ok((input_ids, token_type_ids)) => prepare_encoding(
            input_ids,
            token_type_ids,
            truncate,
            max_input_length,
            position_offset,
        ),
        Err(e) => Err(e),
    }
}

} // verus!
