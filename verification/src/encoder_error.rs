//! Failures of the encoder.

use vstd::prelude::*;
use vstd::string::StringExecFns;
use crate::graph::GgmlCpuGraphError;
use crate::text;

verus! {

/// Why the encoder could not run.
#[derive(Debug)]
pub enum XasrEncoderGraphError {
    /// Inputs, caches or weights do not fit together.
    Shape { reason: String },
    /// A stage of the host computation failed.
    Reference { stage: &'static str, reason: String },
    /// A graph could not be built.
    Ggml { stage: &'static str, source: GgmlCpuGraphError },
}

/// A failure by its contents.
pub enum Refusal {
    Shape { reason: Seq<char> },
    Reference { stage: Seq<char>, reason: Seq<char> },
    Ggml { stage: Seq<char>, unsupported: &'static str },
}

impl XasrEncoderGraphError {
    /// The failure `refusal`.
    pub open spec fn is(self, refusal: Refusal) -> bool {
        match refusal {
            Refusal::Shape { reason } => self.is_shape(reason),
            Refusal::Reference { stage, reason } => self.is_reference(stage, reason),
            Refusal::Ggml { stage, unsupported } => self.is_ggml(stage, unsupported),
        }
    }

    /// The failure in words.
    pub open spec fn message_text(self) -> Seq<char> {
        match self {
            XasrEncoderGraphError::Shape { reason } => "xasr encoder graph shape error: "@
                + reason@,
            XasrEncoderGraphError::Reference { stage, reason } =>
                "xasr encoder reference backend failed at "@ + stage@ + ": "@ + reason@,
            XasrEncoderGraphError::Ggml {
                stage,
                source: GgmlCpuGraphError::UnsupportedInputs { reason },
            } => "xasr encoder GGML backend failed at "@ + stage@ + ": "@ + reason@,
        }
    }

    /// The failure in words.
    pub fn message(&self) -> (message: String)
        ensures
            message@ == self.message_text(),
    {
        match self {
            XasrEncoderGraphError::Shape { reason } => {
                let mut message = text::copy_text("xasr encoder graph shape error: ");
                message.append(reason.as_str());
                message
            },
            XasrEncoderGraphError::Reference { stage, reason } => {
                let mut message = text::copy_text("xasr encoder reference backend failed at ");
                message.append(stage);
                message.append(": ");
                message.append(reason.as_str());
                message
            },
            XasrEncoderGraphError::Ggml { stage, source } => {
                let mut message = text::copy_text("xasr encoder GGML backend failed at ");
                message.append(stage);
                message.append(": ");
                match source {
                    GgmlCpuGraphError::UnsupportedInputs { reason } => {
                        message.append(reason);
                    },
                }
                message
            },
        }
    }

    /// A shape error with this reason.
    pub open spec fn is_shape(self, reason: Seq<char>) -> bool {
        self matches XasrEncoderGraphError::Shape { reason: r } && r@ == reason
    }

    /// A failure of a stage with this reason.
    pub open spec fn is_reference(self, stage: Seq<char>, reason: Seq<char>) -> bool {
        self matches XasrEncoderGraphError::Reference { stage: s, reason: r } && s@ == stage && r@
            == reason
    }

    /// A refused graph at this stage.
    pub open spec fn is_ggml(self, stage: Seq<char>, reason: &'static str) -> bool {
        self matches XasrEncoderGraphError::Ggml { stage: s, source } && s@ == stage && source
            == (GgmlCpuGraphError::UnsupportedInputs { reason })
    }
}

/// The outcome of a computation: the given failure, or success.
pub open spec fn outcome<T>(
    result: Result<T, XasrEncoderGraphError>,
    refusal: Option<Refusal>,
) -> bool {
    match refusal {
        Some(failure) => result is Err && result->Err_0.is(failure),
        None => result is Ok,
    }
}

/// The failure of a stage that refuses a graph, if it does.
pub open spec fn at_stage(stage: Seq<char>, reason: Option<&'static str>) -> Option<Refusal> {
    match reason {
        Some(r) => Some(Refusal::Ggml { stage, unsupported: r }),
        None => None,
    }
}

/// A shape failure, if there is a reason.
pub open spec fn of_shape(reason: Option<Seq<char>>) -> Option<Refusal> {
    match reason {
        Some(r) => Some(Refusal::Shape { reason: r }),
        None => None,
    }
}

/// A shape error with a fixed reason.
pub fn shape_error(reason: &str) -> (error: XasrEncoderGraphError)
    ensures
        error.is_shape(reason@),
{
    XasrEncoderGraphError::Shape { reason: text::copy_text(reason) }
}

/// Names the stage at which a graph was refused.
pub fn map_ggml_stage<T>(
    stage: &'static str,
    result: Result<T, GgmlCpuGraphError>,
) -> (mapped: Result<
    T,
    XasrEncoderGraphError,
>)
    ensures
        match result {
            Ok(value) => mapped == Ok::<T, XasrEncoderGraphError>(value),
            Err(source) => mapped == Err::<T, XasrEncoderGraphError>(
                XasrEncoderGraphError::Ggml { stage, source },
            ),
        },
{
    match result {
        Ok(value) => Ok(value),
        Err(source) => Err(XasrEncoderGraphError::Ggml { stage, source }),
    }
}

} // verus!
