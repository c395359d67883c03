use vstd::prelude::*;

verus! {

/// The ways loading or saving a model can fail.
#[derive(Debug)]
pub enum LinearModelError {
    CouldNotOpenFile(String),
    InvalidFormat(String),
    CouldNotSaveFile(String),
    CouldNotSerialize(String),
}

/// The message that describes `e`.
pub open spec fn model_error_text(e: LinearModelError) -> Seq<char> {
    match e {
        LinearModelError::CouldNotOpenFile(m) => "CouldNotOpenFile: "@ + m@,
        LinearModelError::InvalidFormat(m) => "InvalidFormat: "@ + m@,
        LinearModelError::CouldNotSaveFile(m) => "CouldNotSaveFile: "@ + m@,
        LinearModelError::CouldNotSerialize(m) => "CouldNotSerialize: "@ + m@,
    }
}

impl LinearModelError {
    /// The message that describes this error.
    pub fn message(&self) -> (r: String)
        ensures
            r@ == model_error_text(*self),
    {
        proof {
            reveal_strlit("CouldNotOpenFile: ");
            reveal_strlit("InvalidFormat: ");
            reveal_strlit("CouldNotSaveFile: ");
            reveal_strlit("CouldNotSerialize: ");
        }
        match self {
            LinearModelError::CouldNotOpenFile(m) => {
                String::from_str("CouldNotOpenFile: ").concat(m.as_str())
            },
            LinearModelError::InvalidFormat(m) => {
                String::from_str("InvalidFormat: ").concat(m.as_str())
            },
            LinearModelError::CouldNotSaveFile(m) => {
                String::from_str("CouldNotSaveFile: ").concat(m.as_str())
            },
            LinearModelError::CouldNotSerialize(m) => {
                String::from_str("CouldNotSerialize: ").concat(m.as_str())
            },
        }
    }
}

/// Decides the outcome of loading a stored model from the first record of
/// its source: the record itself when it parsed, `InvalidFormat` with the
/// parser's message when it did not, and `InvalidFormat` with an empty message
/// when the source holds no record.
pub fn model_from_first_record<M>(first: Option<Result<M, String>>) -> (r: Result<
    M,
    LinearModelError,
>)
    ensures
        match first {
            Some(Ok(m)) => r == Ok::<M, LinearModelError>(m),
            Some(Err(e)) => r == Err::<M, LinearModelError>(LinearModelError::InvalidFormat(e)),
            None => r is Err && r->Err_0 is InvalidFormat && r->Err_0->InvalidFormat_0@.len()
                == 0,
        },
{
    match first {
        Some(Ok(m)) => Ok(m),
        Some(Err(e)) => Err(LinearModelError::InvalidFormat(e)),
        None => Err(LinearModelError::InvalidFormat(String::new())),
    }
}

} // verus!
