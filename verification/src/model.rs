//! The parts of a stored model that are not numbers: how its binned features
//! are laid out, the metrics its models were compared by, and the framing of
//! its bytes.

use crate::id::{Id, ParseUidError};
use vstd::prelude::*;

verus! {

/// How the binned features of a tree model are laid out in memory.
#[derive(Debug, Clone, Copy, PartialEq, Eq, Structural)]
pub enum BinnedFeaturesLayout {
    RowMajor,
    ColumnMajor,
}

/// The metric by which regressors are compared.
#[derive(Debug, Clone, Copy, PartialEq, Eq, Structural)]
pub enum RegressionComparisonMetric {
    MeanAbsoluteError,
    MeanSquaredError,
    RootMeanSquaredError,
    R2,
}

/// The metric by which binary classifiers are compared.
#[derive(Debug, Clone, Copy, PartialEq, Eq, Structural)]
pub enum BinaryClassificationComparisonMetric {
    AUCROC,
}

/// The metric by which multiclass classifiers are compared.
#[derive(Debug, Clone, Copy, PartialEq, Eq, Structural)]
pub enum MulticlassClassificationComparisonMetric {
    Accuracy,
}

/// The metric by which classifiers are compared.
#[derive(Debug, Clone, Copy, PartialEq, Eq, Structural)]
pub enum ClassificationComparisonMetric {
    Accuracy,
    Aucroc,
    F1,
}

/// The major version of the stored model format that this library reads and writes.
pub const MODEL_MAJOR_VERSION: u8 = 0;

/// The error for stored bytes whose first byte is a major version other than 0.
#[derive(Debug, Clone, Copy, PartialEq, Eq, Structural)]
pub struct UnknownMajorVersion {
    pub major_version: u8,
}

/// The serialized model inside stored bytes: the bytes after the major version,
/// which must be 0.
pub fn model_payload(slice: &[u8]) -> (r: Result<&[u8], UnknownMajorVersion>)
    requires
        slice@.len() > 0,
    ensures
        slice@[0] == 0 ==> (r matches Ok(payload) && payload@ == slice@.subrange(1, slice@.len() as int)),
        slice@[0] != 0 ==> r == Err::<&[u8], UnknownMajorVersion>(UnknownMajorVersion { major_version: slice@[0] }),
{
    let major_version = slice[0];
    if major_version != MODEL_MAJOR_VERSION {
        return Err(UnknownMajorVersion { major_version });
    }
    Ok(&slice[1..slice.len()])
}

/// The stored bytes for a serialized model: the major version 0, then the model.
pub fn frame_model_bytes(payload: &[u8]) -> (r: Vec<u8>)
    ensures
        r@ == seq![MODEL_MAJOR_VERSION] + payload@,
{
    let mut r: Vec<u8> = Vec::new();
    r.push(MODEL_MAJOR_VERSION);
    let mut i: usize = 0;
    while i < payload.len()
        invariant
            i <= payload@.len(),
            r@ == seq![MODEL_MAJOR_VERSION] + payload@.subrange(0, i as int),
        decreases payload@.len() - i,
    {
        r.push(payload[i]);
        assert(payload@.subrange(0, i + 1) =~= payload@.subrange(0, i as int).push(payload@[i as int]));
        i = i + 1;
    }
    assert(payload@.subrange(0, payload@.len() as int) =~= payload@);
    r
}

/// Reading stored bytes back gives the model that was framed.
pub proof fn lemma_frame_then_payload(payload: Seq<u8>)
    ensures
        (seq![MODEL_MAJOR_VERSION] + payload)[0] == 0,
        (seq![MODEL_MAJOR_VERSION] + payload).subrange(1, payload.len() + 1int) == payload,
{
    assert((seq![MODEL_MAJOR_VERSION] + payload).subrange(1, payload.len() + 1int) =~= payload);
}

/// The identifier of a model, from the text stored in it.
pub fn model_id(id_text: &str) -> (r: Result<Id, ParseUidError>)
    ensures
        r is Ok <==> crate::id::spec_parse_id(id_text@) is Some,
        r matches Ok(id) ==> Some(id@) == crate::id::spec_parse_id(id_text@),
{
    Id::parse(id_text)
}

} // verus!
