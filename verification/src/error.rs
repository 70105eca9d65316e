//! What can keep a session from being opened.

use vstd::prelude::*;

use crate::backend::types::DeviceError;
use crate::linear::block::LinearBlockError;

verus! {

/// A part of a classifier that can fail to be created.
#[derive(Clone, Copy, Debug, PartialEq, Eq, Structural)]
pub enum Component {
    Rope,
    QkUnpack,
    OutputNorm,
    EmbeddingNorm,
    PredictionHeadDense,
    PredictionHeadNorm,
    PredictionHeadReadout,
    PredictionHeadActivation,
}

/// Why a part of a classifier was not created.
#[derive(Debug, PartialEq, Eq)]
pub enum CreationFailure<Name = String, Shape = Vec<usize>> {
    Device(DeviceError),
    Linear(LinearBlockError<Name, Shape>),
}

/// Why a classifier could not be loaded.
#[derive(Debug, PartialEq, Eq)]
pub enum ClassifierError<Name = String, Shape = Vec<usize>> {
    WeightSubtreeNotFound(Name),
    KernelCreationFailed { component: Component, cause: CreationFailure<Name, Shape> },
    NonAttentionMixer,
}

/// Why a session could not be opened.
#[derive(Debug, PartialEq, Eq)]
pub enum Error<Name = String, Shape = Vec<usize>> {
    UnableToCreateContext(DeviceError),
    UnableToLoadWeights,
    /// An error that is passed on as it came.
    Reported(DeviceError),
    Classifier(ClassifierError<Name, Shape>),
}

/// An [`Error`] with its text and shapes as sequences.
pub type ErrorView = Error<Seq<char>, Seq<usize>>;

impl View for Error {
    type V = ErrorView;

    open spec fn view(&self) -> ErrorView {
        match *self {
            Error::UnableToCreateContext(e) => Error::UnableToCreateContext(e),
            Error::UnableToLoadWeights => Error::UnableToLoadWeights,
            Error::Reported(e) => Error::Reported(e),
            Error::Classifier(ClassifierError::WeightSubtreeNotFound(name)) => Error::Classifier(
                ClassifierError::WeightSubtreeNotFound(name@),
            ),
            Error::Classifier(ClassifierError::NonAttentionMixer) => Error::Classifier(
                ClassifierError::NonAttentionMixer,
            ),
            Error::Classifier(ClassifierError::KernelCreationFailed { component, cause }) => {
                Error::Classifier(
                    ClassifierError::KernelCreationFailed {
                        component,
                        cause: match cause {
                            CreationFailure::Device(e) => CreationFailure::Device(e),
                            CreationFailure::Linear(e) => CreationFailure::Linear(e.shown()),
                        },
                    },
                )
            },
        }
    }
}

impl ErrorView {
    /// Whether a device refused a request.
    pub open spec fn is_refusal(self) -> bool {
        match self {
            Error::UnableToCreateContext(_) => true,
            Error::UnableToLoadWeights => false,
            Error::Reported(_) => true,
            Error::Classifier(ClassifierError::KernelCreationFailed { component: _, cause }) => match cause {
                CreationFailure::Device(_) => true,
                CreationFailure::Linear(e) => e.is_refusal(),
            },
            Error::Classifier(_) => false,
        }
    }
}

impl Error {
    /// Whether a device refused a request.
    pub fn was_refused(&self) -> (res: bool)
        ensures
            res == self@.is_refusal(),
    {
        match self {
            Error::UnableToCreateContext(_) => true,
            Error::UnableToLoadWeights => false,
            Error::Reported(_) => true,
            Error::Classifier(ClassifierError::KernelCreationFailed { component: _, cause }) => match cause {
                CreationFailure::Device(_) => true,
                CreationFailure::Linear(e) => e.was_refused(),
            },
            Error::Classifier(_) => false,
        }
    }
}

/// A result with the error taken by its view.
pub open spec fn session_result<T>(res: Result<T, Error>) -> Result<T, ErrorView> {
    match res {
        Ok(value) => Ok(value),
        Err(e) => Err(e@),
    }
}

} // verus!
