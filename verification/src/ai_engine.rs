//! The integer inputs of the sentence-embedding model.

use vstd::prelude::*;
use vstd::utf8::encode_utf8;

verus! {

broadcast use vstd::string::group_string_axioms;

/// The number of tokens the model reads; texts are padded or cut to it.
pub const MAX_SEQ_LEN: usize = 128;

/// The three input rows of the model, and how many tokens are real.
pub struct EmbeddingInputs {
    /// One token per UTF-8 byte of the text, then zeros.
    pub input_ids: Vec<i64>,
    /// 1 for a real token, 0 for padding.
    pub attention_mask: Vec<i64>,
    /// All 0: a single sentence.
    pub token_type_ids: Vec<i64>,
    /// The number of real tokens.
    pub token_count: usize,
}

/// The number of real tokens of a text of `n` bytes.
pub open spec fn real_tokens(n: nat) -> nat {
    if n < MAX_SEQ_LEN {
        n
    } else {
        MAX_SEQ_LEN as nat
    }
}

/// The model inputs for `text`: its UTF-8 bytes as token ids, cut or padded
/// with zeros to `MAX_SEQ_LEN`, with the matching attention mask.
pub fn embedding_inputs(text: &str) -> (r: EmbeddingInputs)
    ensures
        r.token_count == real_tokens(encode_utf8(text@).len()),
        r.input_ids@.len() == MAX_SEQ_LEN,
        r.attention_mask@.len() == MAX_SEQ_LEN,
        r.token_type_ids@.len() == MAX_SEQ_LEN,
        forall|i: int|
            0 <= i < MAX_SEQ_LEN ==> {
                &&& #[trigger] r.input_ids@[i] == (if i < r.token_count {
                    encode_utf8(text@)[i] as i64
                } else {
                    0
                })
                &&& r.attention_mask@[i] == (if i < r.token_count {
                    1i64
                } else {
                    0
                })
                &&& r.token_type_ids@[i] == 0
            },
{
    let bytes = text.as_bytes();
    let count: usize = if bytes.len() < MAX_SEQ_LEN { bytes.len() } else { MAX_SEQ_LEN };
    let mut ids: Vec<i64> = Vec::new();
    let mut mask: Vec<i64> = Vec::new();
    let mut types: Vec<i64> = Vec::new();
    let mut i: usize = 0;
    while i < MAX_SEQ_LEN
        invariant
            i <= MAX_SEQ_LEN,
            count <= bytes@.len(),
            count == real_tokens(bytes@.len()),
            bytes@ == encode_utf8(text@),
            ids@.len() == i,
            mask@.len() == i,
            types@.len() == i,
            forall|k: int|
                0 <= k < i ==> {
                    &&& #[trigger] ids@[k] == (if k < count {
                        bytes@[k] as i64
                    } else {
                        0
                    })
                    &&& mask@[k] == (if k < count {
                        1i64
                    } else {
                        0
                    })
                    &&& types@[k] == 0
                },
        decreases MAX_SEQ_LEN - i,
    {
        if i < count {
            ids.push(bytes[i] as i64);
            mask.push(1);
        } else {
            ids.push(0);
            mask.push(0);
        }
        types.push(0);
        i = i + 1;
        assert forall|k: int| 0 <= k < i implies {
            &&& #[trigger] ids@[k] == (if k < count {
                bytes@[k] as i64
            } else {
                0
            })
            &&& mask@[k] == (if k < count {
                1i64
            } else {
                0
            })
            &&& types@[k] == 0
        } by {
            if k < i - 1 {
                assert(ids@[k] == ids@.drop_last()[k]);
            }
        }
    }
    EmbeddingInputs { input_ids: ids, attention_mask: mask, token_type_ids: types, token_count: count }
}

} // verus!
